//! What the gateway reads out of request and response bodies: the model, the
//! reasoning effort, token usage, and whether a streamed answer completed.

use vstd::prelude::*;

use crate::json::{
    as_i64, as_str, get, get_in, json_as_i64, json_as_str, json_get, json_get_in, json_parse,
    json_text, opt_deref, JsonValue,
};
use crate::text::{
    strings_view,    chars_ends_with, chars_eq, chars_starts_with, ends_with, from_chars, lemma_line_len, lemma_lines_concat, lines, split_lines,
    strip_prefix, sub_chars, to_chars, trim, trim_bounds, trim_chars,
};
use crate::upstream::error::{from_utf8_lossy, text_of, utf8_lossy};
use vstd::utf8::{decode_utf8, encode_utf8, encode_utf8_decode_utf8, encode_utf8_valid_utf8, decode_utf8_encode_utf8, valid_utf8};

verus! {

/// Token counts of one answer: input, output, total and cached input tokens.
pub type Usage = (Option<i64>, Option<i64>, Option<i64>, Option<i64>);

/// `a`, or `b` when `a` is `None` (`Option::or`).
pub open spec fn first_some<T>(a: Option<T>, b: Option<T>) -> Option<T> {
    if a is Some {
        a
    } else {
        b
    }
}

/// The value of an optional count, 0 when it is missing.
pub open spec fn or_zero(x: Option<i64>) -> i64 {
    match x {
        Some(n) => n,
        None => 0,
    }
}

/// The requested model: the string member `model` of the body.
pub open spec fn model_spec(body: JsonValue) -> Option<Seq<char>> {
    as_str(get(body, "model"@))
}

/// The member `model` of a request body, when it is a string.
pub fn model(body: &JsonValue) -> (r: Option<&str>)
    ensures
        match r {
            Some(s) => model_spec(*body) == Some(s@),
            None => model_spec(*body) is None,
        },
{
    json_as_str(json_get(body, "model"))
}

/// Where the effort is read: a non-null `reasoning_effort`, else
/// `reasoning.effort`, else `output_config.effort`, else `effort`.
pub open spec fn effort_value(body: JsonValue) -> Option<JsonValue> {
    let direct = get(body, "reasoning_effort"@);
    let nested = get_in(get(body, "reasoning"@), "effort"@);
    let output = get_in(get(body, "output_config"@), "effort"@);
    if direct is Some && !(direct->0 is Null) {
        direct
    } else if nested is Some {
        nested
    } else if output is Some {
        output
    } else {
        get(body, "effort"@)
    }
}

/// The reasoning effort of a request: a string as it is, `null` as none, any
/// other value as its JSON text.
pub open spec fn reasoning_effort_spec(body: JsonValue) -> Option<Seq<char>> {
    match effort_value(body) {
        None => None,
        Some(JsonValue::Null) => None,
        Some(JsonValue::String(s)) => Some(s@),
        Some(v) => Some(json_text(v)),
    }
}

/// The reasoning effort that a request body asks for.
pub fn reasoning_effort(body: &JsonValue) -> (r: Option<String>)
    ensures
        match r {
            Some(s) => reasoning_effort_spec(*body) == Some(s@),
            None => reasoning_effort_spec(*body) is None,
        },
{
    let direct = json_get(body, "reasoning_effort");
    let effort = match direct {
        Some(JsonValue::Null) | None => {
            let nested = json_get_in(json_get(body, "reasoning"), "effort");
            if nested.is_some() {
                nested
            } else {
                let output = json_get_in(json_get(body, "output_config"), "effort");
                if output.is_some() {
                    output
                } else {
                    json_get(body, "effort")
                }
            }
        },
        Some(v) => Some(v),
    };
    match effort {
        None => None,
        Some(JsonValue::Null) => None,
        Some(JsonValue::String(s)) => {
            let c = s.clone();
            assert(c@ == s@);
            Some(c)
        },
        Some(v) => Some(v.to_json_string()),
    }
}

/// The usage object of a body: the first object among `usage`,
/// `response.usage` and `message.usage`.
pub open spec fn usage_object_spec(body: JsonValue) -> Option<JsonValue> {
    let a = get(body, "usage"@);
    let b = get_in(get(body, "response"@), "usage"@);
    let c = get_in(get(body, "message"@), "usage"@);
    if a is Some && a->0 is Object {
        a
    } else if b is Some && b->0 is Object {
        b
    } else if c is Some && c->0 is Object {
        c
    } else {
        None
    }
}

fn is_object_ref(v: Option<&JsonValue>) -> (r: bool)
    ensures
        r == (opt_deref(v) is Some && opt_deref(v)->0 is Object),
{
    match v {
        Some(JsonValue::Object(_)) => true,
        _ => false,
    }
}

fn usage_object(body: &JsonValue) -> (r: Option<&JsonValue>)
    ensures
        opt_deref(r) == usage_object_spec(*body),
{
    let a = json_get(body, "usage");
    if is_object_ref(a) {
        return a;
    }
    let b = json_get_in(json_get(body, "response"), "usage");
    if is_object_ref(b) {
        return b;
    }
    let c = json_get_in(json_get(body, "message"), "usage");
    if is_object_ref(c) {
        return c;
    }
    None
}

/// The counts in the form that OpenAI reports them.
pub open spec fn standard_fields(u: JsonValue) -> Usage {
    (
        as_i64(first_some(get(u, "prompt_tokens"@), get(u, "input_tokens"@))),
        as_i64(first_some(get(u, "completion_tokens"@), get(u, "output_tokens"@))),
        as_i64(get(u, "total_tokens"@)),
        as_i64(
            first_some(
                get(u, "cached_tokens"@),
                first_some(
                    get_in(get(u, "prompt_tokens_details"@), "cached_tokens"@),
                    get_in(get(u, "input_tokens_details"@), "cached_tokens"@),
                ),
            ),
        ),
    )
}

/// A usage object in Anthropic's form, which reports cache reads and cache
/// creation apart from the uncached input.
pub open spec fn is_anthropic(u: JsonValue) -> bool {
    get(u, "cache_read_input_tokens"@) is Some || get(u, "cache_creation_input_tokens"@) is Some
        || get(u, "cache_creation"@) is Some
}

/// The sum of the integer members whose names end in `_input_tokens`
/// (wrapping at the bounds of `i64`).
pub open spec fn creation_sum(pairs: Seq<(String, JsonValue)>) -> i64
    decreases pairs.len(),
{
    if pairs.len() == 0 {
        0
    } else {
        let prev = creation_sum(pairs.drop_last());
        let last = pairs.last();
        if ends_with(last.0@, "_input_tokens"@) && as_i64(Some(last.1)) is Some {
            prev.wrapping_add(as_i64(Some(last.1))->0)
        } else {
            prev
        }
    }
}

/// The cache-creation tokens: `cache_creation_input_tokens`, else the sum of
/// the `cache_creation` breakdown.
pub open spec fn cache_creation(u: JsonValue) -> Option<i64> {
    match as_i64(get(u, "cache_creation_input_tokens"@)) {
        Some(n) => Some(n),
        None => match get(u, "cache_creation"@) {
            Some(JsonValue::Object(pairs)) => Some(creation_sum(pairs@)),
            _ => None,
        },
    }
}

/// The counts of a body's usage object. In Anthropic's form the input is the
/// full prompt (uncached + cache creation + cache reads) and the cached count
/// is the cache reads. Sums wrap at the bounds of `i64`, as in a release
/// build.
pub open spec fn usage_fields_spec(body: JsonValue) -> Usage {
    match usage_object_spec(body) {
        None => (None, None, None, None),
        Some(u) => if !is_anthropic(u) {
            standard_fields(u)
        } else {
            let uncached = as_i64(get(u, "input_tokens"@));
            let read = as_i64(get(u, "cache_read_input_tokens"@));
            let creation = cache_creation(u);
            let input = if uncached is Some || creation is Some || read is Some {
                Some(or_zero(uncached).wrapping_add(or_zero(creation)).wrapping_add(or_zero(read)))
            } else {
                None
            };
            (input, standard_fields(u).1, standard_fields(u).2, read)
        },
    }
}

/// In Anthropic's form the input count is the full prompt: the uncached
/// input, the cache creation and the cache reads together, and the cached
/// count is the cache reads (when the sum fits in `i64`).
pub proof fn lemma_anthropic_input_is_full_prompt(body: JsonValue, uncached: i64, creation: i64, read: i64)
    requires
        usage_object_spec(body) matches Some(u) && is_anthropic(u) && as_i64(get(u, "input_tokens"@))
            == Some(uncached) && cache_creation(u) == Some(creation) && as_i64(
            get(u, "cache_read_input_tokens"@),
        ) == Some(read),
        i64::MIN <= uncached + creation + read <= i64::MAX,
        i64::MIN <= uncached + creation <= i64::MAX,
    ensures
        usage_spec(body).0 == Some((uncached + creation + read) as i64),
        usage_spec(body).3 == Some(read),
{
    let a = uncached.wrapping_add(creation);
    assert(a == uncached + creation);
    assert(a.wrapping_add(read) == uncached + creation + read);
}

/// The counts with a missing total estimated as input + output.
pub open spec fn with_estimated_total_spec(u: Usage) -> Usage {
    let total = if u.2 is Some {
        u.2
    } else if u.0 is Some || u.1 is Some {
        Some(or_zero(u.0).wrapping_add(or_zero(u.1)))
    } else {
        None
    };
    (u.0, u.1, total, u.3)
}

/// Estimating a missing total keeps the input, output and cached counts; a
/// reported total stays; a missing one is the input plus the output (a
/// missing one of these counting as 0) when that sum fits in `i64`, and
/// stays missing when neither is reported.
pub proof fn lemma_estimated_total(u: Usage)
    ensures
        with_estimated_total_spec(u).0 == u.0,
        with_estimated_total_spec(u).1 == u.1,
        with_estimated_total_spec(u).3 == u.3,
        u.2 is Some ==> with_estimated_total_spec(u).2 == u.2,
        u.2 is None && u.0 is None && u.1 is None ==> with_estimated_total_spec(u).2 is None,
        ({
            let i: int = match u.0 { Some(n) => n as int, None => 0 };
            let o: int = match u.1 { Some(n) => n as int, None => 0 };
            u.2 is None && (u.0 is Some || u.1 is Some) && i64::MIN <= i + o <= i64::MAX
                ==> with_estimated_total_spec(u).2 == Some((i + o) as i64)
        }),
{
}

/// The usage that a response body reports.
pub open spec fn usage_spec(body: JsonValue) -> Usage {
    with_estimated_total_spec(usage_fields_spec(body))
}

/// `target` with each count that `current` has replaced by it.
pub open spec fn merge_spec(target: Usage, current: Usage) -> Usage {
    (
        first_some(current.0, target.0),
        first_some(current.1, target.1),
        first_some(current.2, target.2),
        first_some(current.3, target.3),
    )
}

fn field(u: &JsonValue, key: &str) -> (r: Option<i64>)
    ensures
        r == as_i64(get(*u, key@)),
{
    json_as_i64(json_get(u, key))
}

fn first_field(u: &JsonValue, a: &str, b: &str) -> (r: Option<i64>)
    ensures
        r == as_i64(first_some(get(*u, a@), get(*u, b@))),
{
    let x = json_get(u, a);
    if x.is_some() {
        json_as_i64(x)
    } else {
        json_as_i64(json_get(u, b))
    }
}

fn cached_field(u: &JsonValue) -> (r: Option<i64>)
    ensures
        r == standard_fields(*u).3,
{
    let direct = json_get(u, "cached_tokens");
    if direct.is_some() {
        return json_as_i64(direct);
    }
    let prompt = json_get_in(json_get(u, "prompt_tokens_details"), "cached_tokens");
    if prompt.is_some() {
        return json_as_i64(prompt);
    }
    json_as_i64(json_get_in(json_get(u, "input_tokens_details"), "cached_tokens"))
}

fn creation_total(pairs: &Vec<(String, JsonValue)>) -> (r: i64)
    ensures
        r == creation_sum(pairs@),
{
    let suffix = to_chars("_input_tokens");
    let mut acc: i64 = 0;
    let mut i: usize = 0;
    while i < pairs.len()
        invariant
            i <= pairs@.len(),
            suffix@ == "_input_tokens"@,
            acc == creation_sum(pairs@.take(i as int)),
        decreases pairs@.len() - i,
    {
        let ghost prefix = pairs@.take(i + 1);
        assert(prefix.drop_last() =~= pairs@.take(i as int));
        let name = to_chars(pairs[i].0.as_str());
        let value = json_as_i64(Some(&pairs[i].1));
        if chars_ends_with(name.as_slice(), suffix.as_slice()) {
            if let Some(n) = value {
                acc = acc.wrapping_add(n);
            }
        }
        i = i + 1;
    }
    assert(pairs@.take(pairs@.len() as int) =~= pairs@);
    acc
}

fn usage_fields(body: &JsonValue) -> (r: Usage)
    ensures
        r == usage_fields_spec(*body),
{
    let u = match usage_object(body) {
        Some(u) => u,
        None => return (None, None, None, None),
    };
    let standard_input = first_field(u, "prompt_tokens", "input_tokens");
    let output = first_field(u, "completion_tokens", "output_tokens");
    let total = field(u, "total_tokens");
    let standard_cached = cached_field(u);
    let anthropic = json_get(u, "cache_read_input_tokens").is_some() || json_get(
        u,
        "cache_creation_input_tokens",
    ).is_some() || json_get(u, "cache_creation").is_some();
    if !anthropic {
        return (standard_input, output, total, standard_cached);
    }
    let uncached = field(u, "input_tokens");
    let read = field(u, "cache_read_input_tokens");
    let creation = match field(u, "cache_creation_input_tokens") {
        Some(n) => Some(n),
        None => match json_get(u, "cache_creation") {
            Some(JsonValue::Object(pairs)) => Some(creation_total(pairs)),
            _ => None,
        },
    };
    let input = if uncached.is_some() || creation.is_some() || read.is_some() {
        let a = match uncached {
            Some(n) => n,
            None => 0,
        };
        let b = match creation {
            Some(n) => n,
            None => 0,
        };
        let c = match read {
            Some(n) => n,
            None => 0,
        };
        Some(a.wrapping_add(b).wrapping_add(c))
    } else {
        None
    };
    (input, output, total, read)
}

/// The counts with a missing total estimated as input + output (wrapping).
pub fn with_estimated_total(u: Usage) -> (r: Usage)
    ensures
        r == with_estimated_total_spec(u),
{
    let (input, output, total, cached) = u;
    let total = if total.is_some() {
        total
    } else if input.is_some() || output.is_some() {
        let a = match input {
            Some(n) => n,
            None => 0,
        };
        let b = match output {
            Some(n) => n,
            None => 0,
        };
        Some(a.wrapping_add(b))
    } else {
        None
    };
    (input, output, total, cached)
}

/// The token usage that a response body reports, with a missing total
/// estimated from input and output.
pub fn usage(body: &JsonValue) -> (r: Usage)
    ensures
        r == usage_spec(*body),
{
    with_estimated_total(usage_fields(body))
}

/// Replaces each count of `target` that `current` has.
pub fn merge_usage(target: &mut Usage, current: Usage)
    ensures
        *final(target) == merge_spec(*old(target), current),
{
    if current.0.is_some() {
        target.0 = current.0;
    }
    if current.1.is_some() {
        target.1 = current.1;
    }
    if current.2.is_some() {
        target.2 = current.2;
    }
    if current.3.is_some() {
        target.3 = current.3;
    }
}

/// Merging an event's counts into the usage read so far: every count that
/// the event reports replaces the one read so far, and every count it does
/// not report is kept.
pub proof fn lemma_merge_takes_reported_counts(target: Usage, current: Usage)
    ensures
        current.0 is Some ==> merge_spec(target, current).0 == current.0,
        current.1 is Some ==> merge_spec(target, current).1 == current.1,
        current.2 is Some ==> merge_spec(target, current).2 == current.2,
        current.3 is Some ==> merge_spec(target, current).3 == current.3,
        current.0 is None ==> merge_spec(target, current).0 == target.0,
        current.1 is None ==> merge_spec(target, current).1 == target.1,
        current.2 is None ==> merge_spec(target, current).2 == target.2,
        current.3 is None ==> merge_spec(target, current).3 == target.3,
{
}

/// The payload of an event-stream line: the trimmed line, without a `data:`
/// prefix and the blanks after it.
pub open spec fn sse_data(line: Seq<char>) -> Seq<char> {
    let t = trim(line);
    match strip_prefix(t, "data:"@) {
        Some(d) => trim(d),
        None => t,
    }
}

/// One line of an event stream folded into the usage read so far: a payload
/// that parses as JSON contributes the counts it reports.
pub open spec fn sse_usage_step(acc: Usage, line: Seq<char>) -> Usage {
    let data = sse_data(line);
    if data == "[DONE]"@ {
        acc
    } else {
        match json_parse(data) {
            Some(v) => merge_spec(acc, usage_fields_spec(v)),
            None => acc,
        }
    }
}

/// The usage read from the lines of an event stream, later counts replacing
/// earlier ones.
pub open spec fn sse_usage(lines: Seq<Seq<char>>) -> Usage
    decreases lines.len(),
{
    if lines.len() == 0 {
        (None, None, None, None)
    } else {
        sse_usage_step(sse_usage(lines.drop_last()), lines.last())
    }
}

/// A stream's usage holds, for every count that its last event reports, the
/// count of that event: later counts replace earlier ones.
pub proof fn lemma_stream_usage_from_last_event(lines: Seq<Seq<char>>, v: JsonValue)
    requires
        lines.len() > 0,
        sse_data(lines.last()) != "[DONE]"@,
        json_parse(sse_data(lines.last())) == Some(v),
    ensures
        usage_fields_spec(v).0 is Some ==> sse_usage(lines).0 == usage_fields_spec(v).0,
        usage_fields_spec(v).1 is Some ==> sse_usage(lines).1 == usage_fields_spec(v).1,
        usage_fields_spec(v).2 is Some ==> sse_usage(lines).2 == usage_fields_spec(v).2,
        usage_fields_spec(v).3 is Some ==> sse_usage(lines).3 == usage_fields_spec(v).3,
{
    lemma_merge_takes_reported_counts(sse_usage(lines.drop_last()), usage_fields_spec(v));
}

/// The usage of a streamed answer, decoded lossily from its bytes.
pub open spec fn usage_from_sse_spec(bytes: Seq<u8>) -> Usage {
    with_estimated_total_spec(sse_usage(lines(text_of(bytes))))
}

/// A stream of a single event line reports the usage that the event's body
/// reports.
pub proof fn lemma_single_event_usage(line: Seq<char>, body: JsonValue)
    requires
        forall|i: int| 0 <= i < line.len() ==> line[i] != '\n',
        line.len() > 0,
        sse_data(line) != "[DONE]"@,
        json_parse(sse_data(line)) == Some(body),
    ensures
        with_estimated_total_spec(sse_usage(lines(line))) == usage_spec(body),
{
    lemma_line_len(line, line.len() as int);
    assert(lines(line) == seq![line]);
    let one = seq![line];
    assert(one.drop_last() =~= Seq::<Seq<char>>::empty());
    assert(sse_usage(one.drop_last()) == (None::<i64>, None::<i64>, None::<i64>, None::<i64>));
    assert(one.last() == line);
    assert(sse_usage_step((None, None, None, None), line) == merge_spec(
        (None, None, None, None),
        usage_fields_spec(body),
    ));
    assert(sse_usage(one) == merge_spec((None, None, None, None), usage_fields_spec(body)));
}

fn sse_data_chars(line: &str) -> (r: Vec<char>)
    ensures
        r@ == sse_data(line@),
{
    let t = trim_chars(line);
    let p = to_chars("data:");
    if chars_starts_with(t.as_slice(), p.as_slice()) {
        let rest = sub_chars(t.as_slice(), p.len(), t.len());
        assert(rest@ =~= t@.skip(p@.len() as int));
        let (a, b) = trim_bounds(rest.as_slice());
        sub_chars(rest.as_slice(), a, b)
    } else {
        t
    }
}

/// The token usage of a streamed (server-sent events) answer: each line's
/// JSON payload is read as a body, later counts replace earlier ones, and a
/// missing total is estimated at the end.
pub fn usage_from_sse(bytes: &[u8]) -> (r: Usage)
    ensures
        r == usage_from_sse_spec(bytes@),
{
    let text = from_utf8_lossy(bytes);
    let all = split_lines(text.as_str());
    let done = to_chars("[DONE]");
    let mut result: Usage = (None, None, None, None);
    let mut i: usize = 0;
    assert(strings_view(all@).take(0) =~= seq![]);
    while i < all.len()
        invariant
            i <= all@.len(),
            done@ == "[DONE]"@,
            result == sse_usage(strings_view(all@).take(i as int)),
        decreases all@.len() - i,
    {
        proof {
            assert(strings_view(all@).take(i + 1).drop_last() =~= strings_view(all@).take(i as int));
            assert(strings_view(all@).take(i + 1).last() == all@[i as int]@);
        }
        let data = sse_data_chars(all[i].as_str());
        if !chars_eq(data.as_slice(), done.as_slice()) {
            let payload = from_chars(data.as_slice());
            if let Some(value) = JsonValue::parse(payload.as_str()) {
                merge_usage(&mut result, usage_fields(&value));
            }
        }
        i = i + 1;
    }
    assert(strings_view(all@).take(all@.len() as int) =~= strings_view(all@));
    with_estimated_total(result)
}

/// What an event name or a payload `type` says of a stream: `Some(true)`
/// when it completed, `Some(false)` when it failed, was cut short or was
/// cancelled.
pub open spec fn verdict(name: Seq<char>) -> Option<bool> {
    if name == "response.completed"@ || name == "message_stop"@ {
        Some(true)
    } else if name == "response.failed"@ || name == "response.incomplete"@ || name
        == "response.cancelled"@ || name == "error"@ {
        Some(false)
    } else {
        None
    }
}

/// The names that end a stream: `response.completed` and `message_stop`
/// complete it; `response.failed`, `response.incomplete`,
/// `response.cancelled` and `error` fail it; no other name decides.
pub proof fn lemma_verdict_names(name: Seq<char>)
    ensures
        (name == "response.completed"@ || name == "message_stop"@) ==> verdict(name) == Some(true),
        (name == "response.failed"@ || name == "response.incomplete"@ || name == "response.cancelled"@
            || name == "error"@) ==> verdict(name) == Some(false),
        verdict(name) is Some ==> (name == "response.completed"@ || name == "message_stop"@ || name
            == "response.failed"@ || name == "response.incomplete"@ || name == "response.cancelled"@
            || name == "error"@),
{
    reveal_strlit("response.completed");
    reveal_strlit("message_stop");
    reveal_strlit("response.failed");
    reveal_strlit("response.incomplete");
    reveal_strlit("response.cancelled");
    reveal_strlit("error");
    assert("response.completed"@.len() == 18 && "message_stop"@.len() == 12);
    assert("response.failed"@.len() == 15 && "response.incomplete"@.len() == 19);
    assert("response.cancelled"@.len() == 18 && "error"@.len() == 5);
    assert("response.cancelled"@[10] != "response.completed"@[10]);
}

/// How a stream ends, read from `lines` onward with the current event name:
/// a blank line clears the event name, an `event:` line sets it, `[DONE]`
/// completes, and a JSON payload is judged by the event name, then by its
/// `type`.
pub open spec fn outcome_from(lines: Seq<Seq<char>>, event: Option<Seq<char>>) -> Option<bool>
    decreases lines.len(),
{
    if lines.len() == 0 {
        None
    } else {
        let line = trim(lines[0]);
        let rest = lines.drop_first();
        if line.len() == 0 {
            outcome_from(rest, None)
        } else if strip_prefix(line, "event:"@) is Some {
            outcome_from(rest, Some(trim(strip_prefix(line, "event:"@)->0)))
        } else {
            let data = sse_data(lines[0]);
            if data == "[DONE]"@ {
                Some(true)
            } else if json_parse(data) is None {
                outcome_from(rest, event)
            } else {
                let by_event = match event {
                    Some(e) => verdict(e),
                    None => None,
                };
                let by_type = match as_str(get(json_parse(data)->0, "type"@)) {
                    Some(t) => verdict(t),
                    None => None,
                };
                if by_event is Some {
                    by_event
                } else if by_type is Some {
                    by_type
                } else {
                    outcome_from(rest, event)
                }
            }
        }
    }
}

/// A payload line, read with no event name in force, whose `type` names a
/// failure (`response.failed`, `response.incomplete`, `response.cancelled`
/// or `error`) fails the stream, and one whose `type` names a completion
/// (`response.completed` or `message_stop`) completes it, whatever follows.
pub proof fn lemma_payload_type_decides(line: Seq<char>, rest: Seq<Seq<char>>, v: JsonValue, t: Seq<char>)
    requires
        trim(line).len() > 0,
        strip_prefix(trim(line), "event:"@) is None,
        sse_data(line) != "[DONE]"@,
        json_parse(sse_data(line)) == Some(v),
        as_str(get(v, "type"@)) == Some(t),
    ensures
        (t == "response.failed"@ || t == "response.incomplete"@ || t == "response.cancelled"@ || t
            == "error"@) ==> outcome_from(seq![line] + rest, None) == Some(false),
        (t == "response.completed"@ || t == "message_stop"@) ==> outcome_from(seq![line] + rest, None)
            == Some(true),
{
    lemma_verdict_names(t);
    let l = seq![line] + rest;
    assert(l[0] == line);
}

/// A `[DONE]` payload completes the stream, whatever event name is in force
/// and whatever follows.
pub proof fn lemma_done_completes(line: Seq<char>, rest: Seq<Seq<char>>, event: Option<Seq<char>>)
    requires
        trim(line).len() > 0,
        strip_prefix(trim(line), "event:"@) is None,
        sse_data(line) == "[DONE]"@,
    ensures
        outcome_from(seq![line] + rest, event) == Some(true),
{
    let l = seq![line] + rest;
    assert(l[0] == line);
}

/// A payload line read under an event name that names a failure fails the
/// stream, and under one that names a completion completes it, whatever
/// its `type` and whatever follows.
pub proof fn lemma_event_name_decides(line: Seq<char>, rest: Seq<Seq<char>>, v: JsonValue, e: Seq<char>)
    requires
        trim(line).len() > 0,
        strip_prefix(trim(line), "event:"@) is None,
        sse_data(line) != "[DONE]"@,
        json_parse(sse_data(line)) == Some(v),
    ensures
        (e == "response.failed"@ || e == "response.incomplete"@ || e == "response.cancelled"@ || e
            == "error"@) ==> outcome_from(seq![line] + rest, Some(e)) == Some(false),
        (e == "response.completed"@ || e == "message_stop"@) ==> outcome_from(seq![line] + rest, Some(e))
            == Some(true),
{
    lemma_verdict_names(e);
    let l = seq![line] + rest;
    assert(l[0] == line);
}

/// How a streamed answer ended, decoded lossily from its bytes.
pub open spec fn stream_outcome_spec(bytes: Seq<u8>) -> Option<bool> {
    outcome_from(lines(text_of(bytes)), None)
}

/// Once the lines read so far decide the outcome, more lines change nothing.
proof fn lemma_outcome_decided(l1: Seq<Seq<char>>, l2: Seq<Seq<char>>, event: Option<Seq<char>>)
    requires
        outcome_from(l1, event) is Some,
    ensures
        outcome_from(l1 + l2, event) == outcome_from(l1, event),
    decreases l1.len(),
{
    let l = l1 + l2;
    assert(l[0] == l1[0]);
    assert(l.drop_first() =~= l1.drop_first() + l2);
    let line = trim(l1[0]);
    if line.len() == 0 {
        lemma_outcome_decided(l1.drop_first(), l2, None);
    } else if strip_prefix(line, "event:"@) is Some {
        lemma_outcome_decided(l1.drop_first(), l2, Some(trim(strip_prefix(line, "event:"@)->0)));
    } else if sse_data(l1[0]) != "[DONE]"@ {
        if outcome_from(l1.drop_first(), event) is Some {
            lemma_outcome_decided(l1.drop_first(), l2, event);
        }
    }
}

/// UTF-8 text split in two decodes to the two halves' characters.
proof fn lemma_encode_concat(x: Seq<char>, y: Seq<char>)
    ensures
        encode_utf8(x + y) == encode_utf8(x) + encode_utf8(y),
    decreases x.len(),
{
    if x.len() > 0 {
        assert((x + y)[0] == x[0]);
        assert((x + y).drop_first() =~= x.drop_first() + y);
        lemma_encode_concat(x.drop_first(), y);
        assert(encode_utf8(x + y) =~= encode_utf8(x) + encode_utf8(y));
    } else {
        assert(x + y =~= y);
        assert(encode_utf8(x) =~= seq![]);
        assert(encode_utf8(x) + encode_utf8(y) =~= encode_utf8(y));
    }
}

/// Once a stream's lines decide how it ended, whatever is streamed after
/// them changes nothing: for a valid UTF-8 stream `a` whose text ends with a
/// line break and whose outcome is decided, followed by valid UTF-8 `b`.
pub proof fn lemma_decided_stream_ignores_rest(a: Seq<u8>, b: Seq<u8>)
    requires
        valid_utf8(a),
        valid_utf8(b),
        decode_utf8(a).len() == 0 || decode_utf8(a).last() == '\n',
        stream_outcome_spec(a) is Some,
    ensures
        stream_outcome_spec(a + b) == stream_outcome_spec(a),
{
    let ta = decode_utf8(a);
    let tb = decode_utf8(b);
    decode_utf8_encode_utf8(a);
    decode_utf8_encode_utf8(b);
    lemma_encode_concat(ta, tb);
    encode_utf8_valid_utf8(ta + tb);
    encode_utf8_decode_utf8(ta + tb);
    assert(a + b == encode_utf8(ta + tb));
    assert(text_of(a + b) == ta + tb);
    lemma_lines_concat(ta, tb);
    lemma_outcome_decided(lines(ta), lines(tb), None);
}

/// The view of an optional event name.
pub open spec fn event_view(e: Option<Vec<char>>) -> Option<Seq<char>> {
    match e {
        Some(v) => Some(v@),
        None => None,
    }
}

fn verdict_of(name: &[char]) -> (r: Option<bool>)
    ensures
        r == verdict(name@),
{
    if chars_eq(name, to_chars("response.completed").as_slice()) || chars_eq(
        name,
        to_chars("message_stop").as_slice(),
    ) {
        Some(true)
    } else if chars_eq(name, to_chars("response.failed").as_slice()) || chars_eq(
        name,
        to_chars("response.incomplete").as_slice(),
    ) || chars_eq(name, to_chars("response.cancelled").as_slice()) || chars_eq(
        name,
        to_chars("error").as_slice(),
    ) {
        Some(false)
    } else {
        None
    }
}

/// How the streamed text `text` ended, read line by line.
fn outcome_of_text(text: &str) -> (r: Option<bool>)
    ensures
        r == outcome_from(lines(text@), None),
{
    let all = split_lines(text);
    let event_prefix = to_chars("event:");
    let done = to_chars("[DONE]");
    let mut event: Option<Vec<char>> = None;
    let mut i: usize = 0;
    assert(strings_view(all@).skip(0) =~= strings_view(all@));
    while i < all.len()
        invariant
            i <= all@.len(),
            event_prefix@ == "event:"@,
            done@ == "[DONE]"@,
            outcome_from(lines(text@), None) == outcome_from(
                strings_view(all@).skip(i as int),
                event_view(event),
            ),
        decreases all@.len() - i,
    {
        let ghost l = strings_view(all@).skip(i as int);
        proof {
            assert(l[0] == all@[i as int]@);
            assert(l.drop_first() =~= strings_view(all@).skip(i + 1));
        }
        let line = trim_chars(all[i].as_str());
        if line.len() == 0 {
            event = None;
            i = i + 1;
            continue;
        }
        if chars_starts_with(line.as_slice(), event_prefix.as_slice()) {
            let rest = sub_chars(line.as_slice(), event_prefix.len(), line.len());
            assert(rest@ =~= line@.skip(event_prefix@.len() as int));
            let (a, b) = trim_bounds(rest.as_slice());
            event = Some(sub_chars(rest.as_slice(), a, b));
            i = i + 1;
            continue;
        }
        let data = sse_data_chars(all[i].as_str());
        if chars_eq(data.as_slice(), done.as_slice()) {
            return Some(true);
        }
        let payload = from_chars(data.as_slice());
        let value = match JsonValue::parse(payload.as_str()) {
            Some(v) => v,
            None => {
                i = i + 1;
                continue;
            },
        };
        let by_event = match &event {
            Some(e) => verdict_of(e.as_slice()),
            None => None,
        };
        if by_event.is_some() {
            return by_event;
        }
        let by_type = match json_as_str(json_get(&value, "type")) {
            Some(t) => {
                let tc = to_chars(t);
                verdict_of(tc.as_slice())
            },
            None => None,
        };
        if by_type.is_some() {
            return by_type;
        }
        i = i + 1;
    }
    None
}

/// Whether a streamed answer completed (`Some(true)`), failed
/// (`Some(false)`), or said neither (`None`). Once a valid UTF-8 prefix
/// ending with a line break has decided it, the bytes after it change
/// nothing.
pub fn stream_outcome(bytes: &[u8]) -> (r: Option<bool>)
    ensures
        r == stream_outcome_spec(bytes@),
        forall|a: Seq<u8>, b: Seq<u8>|
            #![trigger a + b, stream_outcome_spec(a)]
            bytes@ == a + b && valid_utf8(a) && (decode_utf8(a).len() == 0 || decode_utf8(a).last()
                == '\n') && stream_outcome_spec(a) is Some ==> r == stream_outcome_spec(a),
{
    let text = from_utf8_lossy(bytes);
    let r = outcome_of_text(text.as_str());
    proof {
        assert forall|a: Seq<u8>, b: Seq<u8>|
            #![trigger a + b, stream_outcome_spec(a)]
            bytes@ == a + b && valid_utf8(a) && (decode_utf8(a).len() == 0 || decode_utf8(a).last()
                == '\n') && stream_outcome_spec(a) is Some implies r == stream_outcome_spec(a) by {
            let ta = decode_utf8(a);
            let tb = utf8_lossy(b);
            assert(text@ == ta + tb);
            lemma_lines_concat(ta, tb);
            lemma_outcome_decided(lines(ta), lines(tb), None);
        }
    }
    r
}

} // verus!

//! JSON values as the gateway reads them, parsed by `serde_json`.

use vstd::prelude::*;

use crate::text::strings_view;

verus! {

/// A JSON number as `serde_json` holds it: a non-negative integer, a
/// negative integer, or a float (kept as `serde_json`'s own number).
#[derive(Debug)]
pub enum JsonNumber {
    PosInt(u64),
    NegInt(i64),
    Float(serde_json::Number),
}

/// A JSON value; an object keeps its members in `serde_json`'s order.
#[derive(Debug)]
pub enum JsonValue {
    Null,
    Bool(bool),
    Number(JsonNumber),
    String(String),
    Array(Vec<JsonValue>),
    Object(Vec<(String, JsonValue)>),
}

/// `serde_json`'s number, carried as an opaque value.
#[verifier::external_type_specification]
#[verifier::external_body]
pub struct ExJsonNumber(serde_json::Number);

/// What `serde_json::from_str::<serde_json::Value>(text)` gives, when it
/// succeeds, as a [`JsonValue`].
pub uninterp spec fn json_parse(text: Seq<char>) -> Option<JsonValue>;

/// What `serde_json::Value::to_string` prints for a value.
pub uninterp spec fn json_text(value: JsonValue) -> Seq<char>;

/// `serde_json`'s value, carried as an opaque value.
#[verifier::external_type_specification]
#[verifier::external_body]
pub struct ExJsonValue(serde_json::Value);

/// Sorts a `serde_json::Number` into the three kinds that `serde_json` keeps.
#[verifier::external_body]
fn number_from_serde(n: serde_json::Number) -> JsonNumber {
    match (n.as_u64(), n.as_i64()) {
        (Some(u), _) => JsonNumber::PosInt(u),
        (None, Some(i)) => JsonNumber::NegInt(i),
        _ => JsonNumber::Float(n),
    }
}

/// Turns a `serde_json::Value` into a [`JsonValue`], variant for variant.
#[verifier::external_body]
fn from_serde(value: serde_json::Value) -> JsonValue {
    match value {
        serde_json::Value::Null => JsonValue::Null,
        serde_json::Value::Bool(b) => JsonValue::Bool(b),
        serde_json::Value::Number(n) => JsonValue::Number(number_from_serde(n)),
        serde_json::Value::String(s) => JsonValue::String(s),
        serde_json::Value::Array(a) => JsonValue::Array(a.into_iter().map(from_serde).collect()),
        serde_json::Value::Object(o) => JsonValue::Object(o.into_iter().map(|(k, v)| (k, from_serde(v))).collect()),
    }
}

/// Turns a [`JsonNumber`] back into a `serde_json::Number`.
#[verifier::external_body]
fn number_to_serde(n: &JsonNumber) -> serde_json::Number {
    match n {
        JsonNumber::PosInt(u) => (*u).into(),
        JsonNumber::NegInt(i) => (*i).into(),
        JsonNumber::Float(f) => f.clone(),
    }
}

/// Turns a [`JsonValue`] into a `serde_json::Value`, variant for variant.
#[verifier::external_body]
fn to_serde(value: &JsonValue) -> serde_json::Value {
    match value {
        JsonValue::Null => serde_json::Value::Null,
        JsonValue::Bool(b) => serde_json::Value::Bool(*b),
        JsonValue::Number(n) => serde_json::Value::Number(number_to_serde(n)),
        JsonValue::String(s) => serde_json::Value::String(s.clone()),
        JsonValue::Array(a) => serde_json::Value::Array(a.iter().map(to_serde).collect()),
        JsonValue::Object(o) => serde_json::Value::Object(o.iter().map(|(k, v)| (k.clone(), to_serde(v))).collect()),
    }
}

/// Calls `serde_json::from_str::<serde_json::Value>` and converts the value.
/// Claimed: the result is the named parse of `text`.
#[verifier::external_body]
fn serde_parse(text: &str) -> (r: Option<JsonValue>)
    ensures
        r == json_parse(text@),
{
    serde_json::from_str::<serde_json::Value>(text).ok().map(from_serde)
}

/// Calls `serde_json::Value::to_string` on the converted value. Claimed: the
/// result is the named text of `value`.
#[verifier::external_body]
fn serde_text(value: &JsonValue) -> (r: String)
    ensures
        r@ == json_text(*value),
{
    to_serde(value).to_string()
}

/// What `serde_json::from_slice::<serde_json::Value>(bytes)` gives, when it
/// succeeds, as a [`JsonValue`].
pub uninterp spec fn json_parse_bytes(bytes: Seq<u8>) -> Option<JsonValue>;

/// Calls `serde_json::from_slice::<serde_json::Value>` and converts the
/// value. Claimed: the result is the named parse of `bytes`.
#[verifier::external_body]
fn serde_parse_bytes(bytes: &[u8]) -> (r: Option<JsonValue>)
    ensures
        r == json_parse_bytes(bytes@),
{
    serde_json::from_slice::<serde_json::Value>(bytes).ok().map(from_serde)
}

impl JsonValue {
    /// Parses JSON bytes.
    pub fn parse_bytes(bytes: &[u8]) -> (r: Option<JsonValue>)
        ensures
            r == json_parse_bytes(bytes@),
    {
        serde_parse_bytes(bytes)
    }

    /// Parses JSON text.
    pub fn parse(text: &str) -> (r: Option<JsonValue>)
        ensures
            r == json_parse(text@),
    {
        serde_parse(text)
    }

    /// The compact JSON text of the value.
    pub fn to_json_string(&self) -> (r: String)
        ensures
            r@ == json_text(*self),
    {
        serde_text(self)
    }
}

/// The index of the first member of `pairs` named `key`.
pub open spec fn member_index(pairs: Seq<(String, JsonValue)>, key: Seq<char>) -> Option<int>
    decreases pairs.len(),
{
    if pairs.len() == 0 {
        None
    } else {
        match member_index(pairs.drop_last(), key) {
            Some(i) => Some(i),
            None => if pairs.last().0@ == key {
                Some(pairs.len() - 1)
            } else {
                None
            },
        }
    }
}

/// `member_index` finds the first member named `key`, and finds none
/// exactly when no member has that name.
pub proof fn lemma_member_index(pairs: Seq<(String, JsonValue)>, key: Seq<char>)
    ensures
        match member_index(pairs, key) {
            Some(i) => 0 <= i < pairs.len() && pairs[i].0@ == key && forall|j: int| 0 <= j < i ==> #[trigger] pairs[j].0@ != key,
            None => forall|j: int| 0 <= j < pairs.len() ==> #[trigger] pairs[j].0@ != key,
        },
    decreases pairs.len(),
{
    if pairs.len() > 0 {
        lemma_member_index(pairs.drop_last(), key);
        match member_index(pairs.drop_last(), key) {
            Some(i) => {
                assert forall|j: int| 0 <= j < i implies #[trigger] pairs[j].0@ != key by {
                    assert(pairs[j] == pairs.drop_last()[j]);
                }
            },
            None => {
                assert forall|j: int| 0 <= j < pairs.len() - 1 implies #[trigger] pairs[j].0@ != key by {
                    assert(pairs[j] == pairs.drop_last()[j]);
                }
            },
        }
    }
}

/// `Value::get(key)`: the member `key` of an object, `None` for anything else.
pub open spec fn get(v: JsonValue, key: Seq<char>) -> Option<JsonValue> {
    match v {
        JsonValue::Object(pairs) => match member_index(pairs@, key) {
            Some(i) => Some(pairs@[i].1),
            None => None,
        },
        _ => None,
    }
}

/// `get` on an optional value.
pub open spec fn get_in(v: Option<JsonValue>, key: Seq<char>) -> Option<JsonValue> {
    match v {
        Some(x) => get(x, key),
        None => None,
    }
}

/// `Value::as_str`.
pub open spec fn as_str(v: Option<JsonValue>) -> Option<Seq<char>> {
    match v {
        Some(JsonValue::String(s)) => Some(s@),
        _ => None,
    }
}

/// `Value::as_i64`: an integer that fits in `i64`.
pub open spec fn as_i64(v: Option<JsonValue>) -> Option<i64> {
    match v {
        Some(JsonValue::Number(JsonNumber::PosInt(u))) => if u <= i64::MAX {
            Some(u as i64)
        } else {
            None
        },
        Some(JsonValue::Number(JsonNumber::NegInt(i))) => Some(i),
        _ => None,
    }
}

/// The member `key` of an object.
pub fn json_get<'a>(v: &'a JsonValue, key: &str) -> (r: Option<&'a JsonValue>)
    ensures
        match r {
            Some(x) => get(*v, key@) == Some(*x),
            None => get(*v, key@) is None,
        },
{
    match v {
        JsonValue::Object(pairs) => {
            proof {
                lemma_member_index(pairs@, key@);
            }
            let mut i: usize = 0;
            while i < pairs.len()
                invariant
                    *v == JsonValue::Object(*pairs),
                    i <= pairs@.len(),
                    forall|j: int| 0 <= j < i ==> #[trigger] pairs@[j].0@ != key@,
                    match member_index(pairs@, key@) {
                        Some(k) => 0 <= k < pairs@.len() && pairs@[k].0@ == key@ && forall|j: int| 0 <= j < k ==> #[trigger] pairs@[j].0@ != key@,
                        None => forall|j: int| 0 <= j < pairs@.len() ==> #[trigger] pairs@[j].0@ != key@,
                    },
                decreases pairs@.len() - i,
            {
                if crate::text::str_eq(pairs[i].0.as_str(), key) {
                    proof {
                        match member_index(pairs@, key@) {
                            Some(k) => {
                                if k < i {
                                    assert(pairs@[k].0@ != key@);
                                } else if k > i {
                                    assert(pairs@[i as int].0@ != key@);
                                }
                            },
                            None => {
                                assert(pairs@[i as int].0@ != key@);
                            },
                        }
                        assert(member_index(pairs@, key@) == Some(i as int));
                    }
                    return Some(&pairs[i].1);
                }
                i = i + 1;
            }
            None
        },
        _ => None,
    }
}

/// The member `key` of an optional object.
pub fn json_get_in<'a>(v: Option<&'a JsonValue>, key: &str) -> (r: Option<&'a JsonValue>)
    ensures
        match r {
            Some(x) => get_in(opt_deref(v), key@) == Some(*x),
            None => get_in(opt_deref(v), key@) is None,
        },
{
    match v {
        Some(x) => json_get(x, key),
        None => None,
    }
}

/// The value an optional reference points to.
pub open spec fn opt_deref(v: Option<&JsonValue>) -> Option<JsonValue> {
    match v {
        Some(x) => Some(*x),
        None => None,
    }
}

/// `Value::as_str` of an optional value.
pub fn json_as_str<'a>(v: Option<&'a JsonValue>) -> (r: Option<&'a str>)
    ensures
        match r {
            Some(s) => as_str(opt_deref(v)) == Some(s@),
            None => as_str(opt_deref(v)) is None,
        },
{
    match v {
        Some(JsonValue::String(s)) => Some(s.as_str()),
        _ => None,
    }
}

/// `Value::as_i64` of an optional value.
pub fn json_as_i64(v: Option<&JsonValue>) -> (r: Option<i64>)
    ensures
        r == as_i64(opt_deref(v)),
{
    match v {
        Some(JsonValue::Number(JsonNumber::PosInt(u))) => {
            if *u <= 9223372036854775807u64 {
                Some(*u as i64)
            } else {
                None
            }
        },
        Some(JsonValue::Number(JsonNumber::NegInt(i))) => Some(*i),
        _ => None,
    }
}

/// The strings of `v` when it is an array of strings (what
/// `serde_json::from_str::<Vec<String>>` accepts).
pub open spec fn string_list(v: Option<JsonValue>) -> Option<Seq<Seq<char>>> {
    match v {
        Some(JsonValue::Array(items)) => if forall|i: int| 0 <= i < items@.len() ==> (#[trigger] items@[i]) is String {
            Some(Seq::new(items@.len(), |i: int| items@[i]->String_0@))
        } else {
            None
        },
        _ => None,
    }
}

/// The strings of a JSON array of strings, or `None` for any other text.
pub fn parse_string_list(text: &str) -> (r: Option<Vec<String>>)
    ensures
        match r {
            Some(v) => string_list(json_parse(text@)) == Some(strings_view(v@)),
            None => string_list(json_parse(text@)) is None,
        },
{
    let parsed = JsonValue::parse(text);
    let items = match &parsed {
        Some(JsonValue::Array(items)) => items,
        _ => return None,
    };
    let mut out: Vec<String> = Vec::new();
    let mut i: usize = 0;
    while i < items.len()
        invariant
            i <= items@.len(),
            json_parse(text@) == Some(JsonValue::Array(*items)),
            forall|j: int| 0 <= j < i ==> (#[trigger] items@[j]) is String,
            out@.len() == i,
            strings_view(out@) == Seq::new(i as nat, |j: int| items@[j]->String_0@),
        decreases items@.len() - i,
    {
        match &items[i] {
            JsonValue::String(s) => {
                let ghost before = out@;
                let c = s.clone();
                assert(c@ == s@);
                out.push(c);
                assert forall|j: int| 0 <= j < i + 1 implies #[trigger] strings_view(out@)[j] == items@[j]->String_0@ by {
                    if j < i {
                        assert(out@[j] == before[j]);
                        assert(strings_view(before)[j] == items@[j]->String_0@);
                    }
                }
                assert(strings_view(out@) =~= Seq::new((i + 1) as nat, |j: int| items@[j]->String_0@));
            },
            _ => {
                assert(!(items@[i as int] is String));
                return None;
            },
        }
        i = i + 1;
    }
    Some(out)
}

/// The element `i` of an array, `None` for anything else.
pub open spec fn at(v: Option<JsonValue>, i: int) -> Option<JsonValue> {
    match v {
        Some(JsonValue::Array(items)) => if 0 <= i < items@.len() {
            Some(items@[i])
        } else {
            None
        },
        _ => None,
    }
}

/// The element `i` of an optional array.
pub fn json_at<'a>(v: Option<&'a JsonValue>, i: usize) -> (r: Option<&'a JsonValue>)
    ensures
        opt_deref(r) == at(opt_deref(v), i as int),
{
    match v {
        Some(JsonValue::Array(items)) => if i < items.len() {
            Some(&items[i])
        } else {
            None
        },
        _ => None,
    }
}

/// A lower-case hexadecimal digit.
pub open spec fn hex_digit(n: nat) -> char {
    if n < 10 {
        (48 + n) as char
    } else {
        (87 + n) as char
    }
}

/// How `serde_json` writes a character inside a string: `"` and `\` and the
/// control characters escaped (`\b`, `\t`, `\n`, `\f`, `\r`, else
/// `\u00xx` in lower-case hex), every other character as it is.
pub open spec fn json_escape(c: char) -> Seq<char> {
    if c == '"' {
        seq!['\\', '"']
    } else if c == '\\' {
        seq!['\\', '\\']
    } else if c == '\u{8}' {
        seq!['\\', 'b']
    } else if c == '\t' {
        seq!['\\', 't']
    } else if c == '\n' {
        seq!['\\', 'n']
    } else if c == '\u{c}' {
        seq!['\\', 'f']
    } else if c == '\r' {
        seq!['\\', 'r']
    } else if (c as u32) < 0x20 {
        seq!['\\', 'u', '0', '0', hex_digit(((c as u32) / 16) as nat), hex_digit(((c as u32) % 16) as nat)]
    } else {
        seq![c]
    }
}

/// The escaped characters of a string.
pub open spec fn json_escaped(s: Seq<char>) -> Seq<char>
    decreases s.len(),
{
    if s.len() == 0 {
        seq![]
    } else {
        json_escaped(s.drop_last()) + json_escape(s.last())
    }
}

/// A string as a JSON string: escaped, between quotes.
pub open spec fn json_quoted(s: Seq<char>) -> Seq<char> {
    seq!['"'] + json_escaped(s) + seq!['"']
}

/// The quoted strings, separated by commas.
pub open spec fn json_joined(items: Seq<Seq<char>>) -> Seq<char>
    decreases items.len(),
{
    if items.len() == 0 {
        seq![]
    } else if items.len() == 1 {
        json_quoted(items[0])
    } else {
        json_joined(items.drop_last()) + seq![','] + json_quoted(items.last())
    }
}

/// What `serde_json::to_string` prints for a list of strings: the quoted
/// strings between brackets, separated by commas, without spaces.
pub open spec fn json_strings_text(items: Seq<Seq<char>>) -> Seq<char> {
    seq!['['] + json_joined(items) + seq![']']
}

/// Calls `serde_json::to_string` on a list of strings. Claimed: the result
/// is the compact JSON array of the strings, escaped as `serde_json`'s
/// `ESCAPE` table and `write_char_escape` do. The call cannot fail here:
/// strings always serialize, and writing into a `Vec<u8>` does not fail.
#[verifier::external_body]
fn serde_strings_text(items: &Vec<String>) -> (r: String)
    ensures
        r@ == json_strings_text(strings_view(items@)),
{
    serde_json::to_string(items).unwrap_or_default()
}

/// The JSON text of a list of strings.
pub fn strings_to_json(items: &Vec<String>) -> (r: String)
    ensures
        r@ == json_strings_text(strings_view(items@)),
{
    serde_strings_text(items)
}

} // verus!

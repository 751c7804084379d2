//! The request that probes an account: one token of a chat completion.

use vstd::prelude::*;

use crate::json::{as_i64, as_str, at, get, lemma_member_index, JsonNumber, JsonValue};
use crate::model::account::Account;
use crate::text::{opt_str_view, opt_string_view};
use crate::service::account_service::{mapping, mapping_spec};
use crate::text::str_eq;

verus! {

/// A prepared probe: the requested model, the endpoint path and the body.
#[derive(Debug)]
pub struct AccountProbe {
    pub model: String,
    pub endpoint: &'static str,
    pub body: JsonValue,
}

/// The endpoint of a protocol: Anthropic's messages, else chat completions.
pub open spec fn endpoint_for(account_type: Seq<char>) -> Seq<char> {
    if account_type == "anthropic"@ {
        "/v1/messages"@
    } else {
        "/v1/chat/completions"@
    }
}

/// The endpoint path that probes an account of `account_type`.
pub fn endpoint(account_type: &str) -> (r: &'static str)
    ensures
        r@ == endpoint_for(account_type@),
{
    if str_eq(account_type, "anthropic") {
        "/v1/messages"
    } else {
        "/v1/chat/completions"
    }
}

/// A probe body: the object `{"max_tokens": 1, "messages": [{"content":
/// "ping", "role": "user"}], "model": model}`, with `"reasoning_effort":
/// "low"` as well when `low_effort` is set, and nothing else.
pub open spec fn is_probe_body(body: JsonValue, model: Seq<char>, low_effort: bool) -> bool {
    let message = at(get(body, "messages"@), 0);
    &&& body matches JsonValue::Object(pairs) && pairs@.len() == (if low_effort { 4int } else { 3int })
    &&& as_str(get(body, "model"@)) == Some(model)
    &&& as_i64(get(body, "max_tokens"@)) == Some(1i64)
    &&& get(body, "messages"@) matches Some(JsonValue::Array(items)) && items@.len() == 1
    &&& message matches Some(JsonValue::Object(fields)) && fields@.len() == 2
    &&& as_str(get_opt(message, "role"@)) == Some("user"@)
    &&& as_str(get_opt(message, "content"@)) == Some("ping"@)
    &&& (low_effort ==> as_str(get(body, "reasoning_effort"@)) == Some("low"@))
    &&& (!low_effort ==> get(body, "reasoning_effort"@) is None)
}

/// `get` on an optional value.
pub open spec fn get_opt(v: Option<JsonValue>, key: Seq<char>) -> Option<JsonValue> {
    match v {
        Some(x) => get(x, key),
        None => None,
    }
}

/// The body that probes `model`, asking for low reasoning effort when
/// `low_effort` is set.
pub fn probe_body(model: String, low_effort: bool) -> (r: JsonValue)
    ensures
        is_probe_body(r, model@, low_effort),
{
    let mut members: Vec<(String, JsonValue)> = Vec::new();
    members.push(("content".to_string(), JsonValue::String("ping".to_string())));
    members.push(("role".to_string(), JsonValue::String("user".to_string())));
    let message = JsonValue::Object(members);
    let mut pairs: Vec<(String, JsonValue)> = Vec::new();
    pairs.push(("max_tokens".to_string(), JsonValue::Number(JsonNumber::PosInt(1))));
    let mut messages: Vec<JsonValue> = Vec::new();
    messages.push(message);
    pairs.push(("messages".to_string(), JsonValue::Array(messages)));
    pairs.push(("model".to_string(), JsonValue::String(model)));
    if low_effort {
        pairs.push(("reasoning_effort".to_string(), JsonValue::String("low".to_string())));
    }
    proof {
        reveal_strlit("content");
        reveal_strlit("role");
        reveal_strlit("max_tokens");
        reveal_strlit("messages");
        reveal_strlit("model");
        reveal_strlit("reasoning_effort");
        reveal_strlit("ping");
        reveal_strlit("user");
        reveal_strlit("low");
        let fields = message->Object_0@;
        lemma_member_index(fields, "role"@);
        lemma_member_index(fields, "content"@);
        let ps = pairs@;
        lemma_member_index(ps, "max_tokens"@);
        lemma_member_index(ps, "messages"@);
        lemma_member_index(ps, "model"@);
        lemma_member_index(ps, "reasoning_effort"@);
        let body = JsonValue::Object(pairs);
        assert(ps[0].0@ == "max_tokens"@);
        assert(ps[1].0@ == "messages"@);
        assert(ps[2].0@ == "model"@);
        assert(fields[0].0@ == "content"@);
        assert(fields[1].0@ == "role"@);
        assert(get(body, "messages"@) == Some(JsonValue::Array(messages)));
        assert(messages@[0] == message);
        assert(at(get(body, "messages"@), 0) == Some(message));
        assert(get_opt(Some(message), "role"@) == Some(fields[1].1));
    }
    JsonValue::Object(pairs)
}

/// The probe of `account` for `model`: the model as the account maps it,
/// the protocol's endpoint, and one token asked for.
pub fn build_request(account: &Account, model: &str) -> (r: AccountProbe)
    ensures
        r.model@ == model@,
        r.endpoint@ == endpoint_for(account.account_type@),
        is_probe_body(
            r.body,
            match mapping_spec(opt_string_view(account.model_mappings), Some(model@)) {
                Some(m) => m,
                None => model@,
            },
            false,
        ),
{
    let upstream_model = match mapping(account, Some(model)) {
        Some(m) => m,
        None => model.to_string(),
    };
    AccountProbe {
        model: model.to_string(),
        endpoint: endpoint(account.account_type.as_str()),
        body: probe_body(upstream_model, false),
    }
}

/// The model a probe uses: the requested one, else the account's test
/// model, else the protocol's default model; `None` when there is none.
pub open spec fn probe_model_spec(
    requested: Option<Seq<char>>,
    test_default: Option<Seq<char>>,
    default_name: Option<Seq<char>>,
) -> Option<Seq<char>> {
    match requested {
        Some(m) => Some(m),
        None => match test_default {
            Some(m) => Some(m),
            None => default_name,
        },
    }
}

/// The model a probe uses, given the protocol's default model as the model
/// catalog names it.
pub fn probe_model(requested: Option<&str>, test_default: Option<&str>, default_name: Option<String>) -> (r: Option<String>)
    ensures
        opt_string_view(r) == probe_model_spec(
            opt_str_view(requested),
            opt_str_view(test_default),
            opt_string_view(default_name),
        ),
{
    match requested {
        Some(m) => Some(m.to_string()),
        None => match test_default {
            Some(m) => Some(m.to_string()),
            None => default_name,
        },
    }
}

/// The probe of `account`: for the requested model, else the account's test
/// model, else `default_name` (the protocol's default model, as the model
/// catalog names it); `None` when there is no model to probe.
pub fn prepare(account: &Account, requested_model: Option<&str>, default_name: Option<String>) -> (r: Option<AccountProbe>)
    ensures
        r is Some <==> probe_model_spec(
            opt_str_view(requested_model),
            opt_string_view(account.test_default_model),
            opt_string_view(default_name),
        ) is Some,
        r matches Some(p) ==> probe_model_spec(
            opt_str_view(requested_model),
            opt_string_view(account.test_default_model),
            opt_string_view(default_name),
        ) matches Some(m) && p.model@ == m && p.endpoint@ == endpoint_for(account.account_type@)
            && is_probe_body(
            p.body,
            match mapping_spec(opt_string_view(account.model_mappings), Some(m)) {
                Some(x) => x,
                None => m,
            },
            false,
        ),
{
    let test_default = match &account.test_default_model {
        Some(t) => Some(t.as_str()),
        None => None,
    };
    assert(opt_str_view(test_default) == opt_string_view(account.test_default_model));
    match probe_model(requested_model, test_default, default_name) {
        Some(m) => Some(build_request(account, m.as_str())),
        None => None,
    }
}

} // verus!

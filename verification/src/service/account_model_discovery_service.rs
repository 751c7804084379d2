//! Listing the models that an upstream offers: what the request must hold
//! and how the upstream's answer is read.

use vstd::prelude::*;

use crate::error::{is_bad_request, is_upstream, AppError};
use crate::json::{as_str, get, json_as_str, json_get, json_parse_bytes, JsonValue};
use crate::text::{
    concat, from_chars, insert_sorted, int_text, int_to_string, sorted_strict, str_eq, strings_view,
    trim, trim_chars, trim_string,
};
use crate::upstream::error::{head_text, response_body};

verus! {

/// What a discovery request must hold: a known protocol (after trimming),
/// an address and a key that are not blank. `Ok` holds the trimmed protocol.
pub open spec fn discover_check(account_type: Seq<char>, base_url: Seq<char>, api_key: Seq<char>) -> Result<
    Seq<char>,
    Seq<char>,
> {
    let t = trim(account_type);
    if t != "openai"@ && t != "anthropic"@ {
        Err("账号类型必须是 openai 或 anthropic"@)
    } else if trim(base_url).len() == 0 {
        Err("上游地址不能为空"@)
    } else if trim(api_key).len() == 0 {
        Err("API 密钥不能为空"@)
    } else {
        Ok(t)
    }
}

/// Checks a discovery request; a refusal is a bad request. Gives the
/// trimmed protocol.
pub fn check_request(account_type: &str, base_url: &str, api_key: &str) -> (r: Result<String, AppError>)
    ensures
        r is Ok <==> discover_check(account_type@, base_url@, api_key@) is Ok,
        r matches Ok(t) ==> (discover_check(account_type@, base_url@, api_key@) matches Ok(u) && u == t@),
        r matches Err(e) ==> discover_check(account_type@, base_url@, api_key@) matches Err(m) && is_bad_request(e, m),
{
    let t = trim_string(account_type);
    if !str_eq(t.as_str(), "openai") && !str_eq(t.as_str(), "anthropic") {
        return Err(AppError::BadRequest("账号类型必须是 openai 或 anthropic".to_string()));
    }
    if trim_chars(base_url).len() == 0 {
        return Err(AppError::BadRequest("上游地址不能为空".to_string()));
    }
    if trim_chars(api_key).len() == 0 {
        return Err(AppError::BadRequest("API 密钥不能为空".to_string()));
    }
    Ok(t)
}

/// The message of a refused model listing: the status, and the trimmed head
/// of the body when there is one.
pub open spec fn status_message(status: u16, bytes: Seq<u8>) -> Seq<char> {
    let detail = trim(head_text(bytes));
    if detail.len() == 0 {
        "查询模型列表失败，HTTP "@ + int_text(status as int)
    } else {
        "查询模型列表失败，HTTP "@ + int_text(status as int) + "："@ + detail
    }
}

/// The error for an upstream that refused to list its models.
pub fn upstream_status_error(status: u16, bytes: &[u8]) -> (r: AppError)
    ensures
        is_upstream(r, status_message(status, bytes@)),
{
    let body = response_body(bytes);
    let detail = trim_string(body.as_str());
    let head = concat("查询模型列表失败，HTTP ", int_to_string(status as i64).as_str());
    if crate::text::to_chars(detail.as_str()).len() == 0 {
        AppError::Upstream(head)
    } else {
        let with_sep = concat(head.as_str(), "：");
        AppError::Upstream(concat(with_sep.as_str(), detail.as_str()))
    }
}

/// The ids that a listing names: each item's string `id`, trimmed, when not
/// empty.
pub open spec fn listed_ids(items: Seq<JsonValue>) -> Set<Seq<char>>
    decreases items.len(),
{
    if items.len() == 0 {
        Set::empty()
    } else {
        let prev = listed_ids(items.drop_last());
        match as_str(get(items.last(), "id"@)) {
            Some(id) => if trim(id).len() > 0 {
                prev.insert(trim(id))
            } else {
                prev
            },
            None => prev,
        }
    }
}

/// The model list of an upstream's answer: the `data` array's ids, sorted
/// and without duplicates; an answer without a `data` array is refused.
pub fn parse_models(body: &JsonValue) -> (r: Result<Vec<String>, AppError>)
    ensures
        r is Ok <==> get(*body, "data"@) matches Some(JsonValue::Array(_)),
        r matches Err(e) ==> is_upstream(e, "上游返回中未找到 data 模型列表"@),
        r matches Ok(models) ==> get(*body, "data"@) matches Some(JsonValue::Array(items))
            && sorted_strict(strings_view(models@)) && strings_view(models@).to_set() == listed_ids(items@),
{
    let items = match json_get(body, "data") {
        Some(JsonValue::Array(items)) => items,
        _ => return Err(AppError::Upstream("上游返回中未找到 data 模型列表".to_string())),
    };
    let mut models: Vec<String> = Vec::new();
    let mut i: usize = 0;
    assert(items@.take(0) =~= seq![]);
    assert(strings_view(models@).to_set() =~= Set::empty());
    while i < items.len()
        invariant
            i <= items@.len(),
            sorted_strict(strings_view(models@)),
            strings_view(models@).to_set() == listed_ids(items@.take(i as int)),
        decreases items@.len() - i,
    {
        proof {
            assert(items@.take(i + 1).drop_last() =~= items@.take(i as int));
            assert(items@.take(i + 1).last() == items@[i as int]);
        }
        if let Some(id) = json_as_str(json_get(&items[i], "id")) {
            let t = trim_chars(id);
            if t.len() > 0 {
                insert_sorted(&mut models, from_chars(t.as_slice()));
            }
        }
        i = i + 1;
    }
    assert(items@.take(items@.len() as int) =~= items@);
    Ok(models)
}

/// The model list of an answered listing: a refusal status is an upstream
/// error with the status and body; a body that is not JSON, or has no
/// `data` array, is refused.
pub fn models_from_response(status: u16, bytes: &[u8]) -> (r: Result<Vec<String>, AppError>)
    ensures
        !(200 <= status < 300) ==> (r matches Err(e) && is_upstream(e, status_message(status, bytes@))),
        200 <= status < 300 && json_parse_bytes(bytes@) is None ==> (r matches Err(e) && is_upstream(
            e,
            "上游返回的模型列表不是有效 JSON"@,
        )),
        200 <= status < 300 ==> (json_parse_bytes(bytes@) matches Some(body) ==> match r {
            Ok(models) => get(body, "data"@) matches Some(JsonValue::Array(items)) && sorted_strict(
                strings_view(models@),
            ) && strings_view(models@).to_set() == listed_ids(items@),
            Err(e) => !(get(body, "data"@) matches Some(JsonValue::Array(_))) && is_upstream(
                e,
                "上游返回中未找到 data 模型列表"@,
            ),
        }),
{
    if !(200 <= status && status < 300) {
        return Err(upstream_status_error(status, bytes));
    }
    match JsonValue::parse_bytes(bytes) {
        None => Err(AppError::Upstream("上游返回的模型列表不是有效 JSON".to_string())),
        Some(body) => parse_models(&body),
    }
}

} // verus!

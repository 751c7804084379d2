//! How an account maps requested models and which models it lists.

use vstd::prelude::*;
use crate::text::opt_str_view;

use crate::dao::account_dao::{model_list, opt_strings_view};
use crate::json::{as_str, get, json_as_str, json_get, json_parse, JsonValue};
use crate::model::account::Account;
use crate::text::opt_string_view;
use crate::json::parse_string_list;

verus! {

/// The upstream model for `requested` given the parsed mapping column: the
/// string that a mapping object gives the model, else the model itself
/// (also when the column did not parse or is not a JSON object).
pub open spec fn mapped_from(parsed: Option<JsonValue>, requested: Seq<char>) -> Seq<char> {
    match parsed {
        Some(JsonValue::Object(pairs)) => match as_str(get(JsonValue::Object(pairs), requested)) {
            Some(s) => s,
            None => requested,
        },
        _ => requested,
    }
}

/// The upstream model for a requested one: none when no model is asked for;
/// the string that the account's mapping object gives the model, else the
/// model itself (also when the mapping is missing or not a JSON object).
pub open spec fn mapping_spec(mappings: Option<Seq<char>>, model: Option<Seq<char>>) -> Option<
    Seq<char>,
> {
    match model {
        None => None,
        Some(requested) => match mappings {
            None => Some(requested),
            Some(raw) => Some(mapped_from(json_parse(raw), requested)),
        },
    }
}

/// The upstream model for `requested` given the parsed mapping column.
pub fn mapped_model(parsed: &Option<JsonValue>, requested: &str) -> (r: String)
    ensures
        r@ == mapped_from(*parsed, requested@),
{
    match parsed {
        Some(value) => match value {
            JsonValue::Object(_) => match json_as_str(json_get(value, requested)) {
                Some(s) => s.to_string(),
                None => requested.to_string(),
            },
            _ => requested.to_string(),
        },
        None => requested.to_string(),
    }
}

/// The upstream model that `account` is asked for when `model` is requested.
pub fn mapping(account: &Account, model: Option<&str>) -> (r: Option<String>)
    ensures
        opt_string_view(r) == mapping_spec(
            opt_string_view(account.model_mappings),
            crate::text::opt_str_view(model),
        ),
{
    let requested = match model {
        None => return None,
        Some(m) => m,
    };
    let raw = match &account.model_mappings {
        None => return Some(requested.to_string()),
        Some(raw) => raw,
    };
    let parsed = JsonValue::parse(raw.as_str());
    Some(mapped_model(&parsed, requested))
}

/// The models that an account lists: its supported-models column when it
/// holds a JSON array of strings, else none.
pub fn supported_models(account: &Account) -> (r: Vec<String>)
    ensures
        opt_strings_view(Some(r)) == (match model_list(opt_string_view(account.supported_models)) {
            Some(items) => Some(items),
            None => Some(Seq::<Seq<char>>::empty()),
        }),
{
    let listed = match &account.supported_models {
        Some(raw) => parse_string_list(raw.as_str()),
        None => None,
    };
    match listed {
        Some(items) => items,
        None => {
            let v: Vec<String> = Vec::new();
            assert(crate::text::strings_view(v@) =~= Seq::<Seq<char>>::empty());
            v
        },
    }
}

} // verus!

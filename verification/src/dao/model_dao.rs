//! The rules of the model catalog: what a catalog entry must hold and how
//! it is shown.

use vstd::prelude::*;

use crate::error::{is_bad_request, AppError};
use crate::model::catalog_model::CatalogModel;
use crate::text::opt_string_view;
use crate::schema::model_schema::{ModelCreate, ModelUpdate, ModelView};
use crate::text::{from_chars, str_eq, to_chars, trim, trim_chars};

verus! {

/// A catalog entry as the API shows it: its fields as they are.
pub fn to_view(model: CatalogModel) -> (r: ModelView)
    ensures
        r.id == model.id,
        r.name == model.name,
        r.model_type == model.model_type,
        r.provider == model.provider,
        r.is_default == model.is_default,
        r.created_at == model.created_at,
        r.updated_at == model.updated_at,
{
    let CatalogModel { id, name, model_type, provider, is_default, created_at, updated_at } = model;
    ModelView { id, name, model_type, provider, is_default, created_at, updated_at }
}

/// What a catalog entry must hold: a name, a known protocol and a provider.
pub open spec fn validate_spec(name: Seq<char>, kind: Seq<char>, provider: Seq<char>) -> Result<
    (),
    Seq<char>,
> {
    if name.len() == 0 {
        Err("模型名称不能为空"@)
    } else if kind != "openai"@ && kind != "anthropic"@ {
        Err("协议类型不支持"@)
    } else if provider.len() == 0 {
        Err("模型供应商不能为空"@)
    } else {
        Ok(())
    }
}

/// Checks a catalog entry; a refusal is a bad request.
pub fn validate(name: &str, kind: &str, provider: &str) -> (r: Result<(), AppError>)
    ensures
        r is Ok <==> validate_spec(name@, kind@, provider@) is Ok,
        r matches Err(e) ==> validate_spec(name@, kind@, provider@) matches Err(msg) && is_bad_request(e, msg),
{
    if to_chars(name).len() == 0 {
        return Err(AppError::BadRequest("模型名称不能为空".to_string()));
    }
    if !str_eq(kind, "openai") && !str_eq(kind, "anthropic") {
        return Err(AppError::BadRequest("协议类型不支持".to_string()));
    }
    if to_chars(provider).len() == 0 {
        return Err(AppError::BadRequest("模型供应商不能为空".to_string()));
    }
    Ok(())
}

/// The columns that creating or updating a catalog entry writes.
#[derive(Debug)]
pub struct ModelFields {
    pub name: String,
    pub model_type: String,
    pub provider: String,
}

/// The columns of a new entry: the request's fields trimmed, then checked.
pub fn create_fields(payload: &ModelCreate) -> (r: Result<ModelFields, AppError>)
    ensures
        r is Ok <==> validate_spec(trim(payload.name@), trim(payload.model_type@), trim(payload.provider@)) is Ok,
        r matches Err(e) ==> validate_spec(trim(payload.name@), trim(payload.model_type@), trim(payload.provider@)) matches Err(msg)
            && is_bad_request(e, msg),
        r matches Ok(f) ==> f.name@ == trim(payload.name@) && f.model_type@ == trim(payload.model_type@)
            && f.provider@ == trim(payload.provider@),
{
    let name = from_chars(trim_chars(payload.name.as_str()).as_slice());
    let model_type = from_chars(trim_chars(payload.model_type.as_str()).as_slice());
    let provider = from_chars(trim_chars(payload.provider.as_str()).as_slice());
    validate(name.as_str(), model_type.as_str(), provider.as_str())?;
    Ok(ModelFields { name, model_type, provider })
}

/// An update's value, else the stored one.
pub open spec fn given_or(value: Option<Seq<char>>, current: Seq<char>) -> Seq<char> {
    match value {
        Some(v) => v,
        None => current,
    }
}

fn given_or_current(value: &Option<String>, current: &String) -> (r: Vec<char>)
    ensures
        r@ == trim(given_or(opt_string_view(*value), current@)),
{
    match value {
        Some(v) => trim_chars(v.as_str()),
        None => trim_chars(current.as_str()),
    }
}

/// The columns of an updated entry: the request's fields, else the stored
/// ones, trimmed and checked; `is_default` is kept, or cleared when the
/// protocol changes.
pub fn update_fields(current: &CatalogModel, payload: &ModelUpdate) -> (r: Result<(ModelFields, i64), AppError>)
    ensures
        ({
            let name = trim(given_or(opt_string_view(payload.name), current.name@));
            let kind = trim(given_or(opt_string_view(payload.model_type), current.model_type@));
            let provider = trim(given_or(opt_string_view(payload.provider), current.provider@));
            &&& (r is Ok <==> validate_spec(name, kind, provider) is Ok)
            &&& (r matches Err(e) ==> validate_spec(name, kind, provider) matches Err(msg) && is_bad_request(e, msg))
            &&& (r matches Ok((f, d)) ==> f.name@ == name && f.model_type@ == kind && f.provider@ == provider
                && d == (if kind != current.model_type@ { 0 } else { current.is_default }))
        }),
{
    let name = from_chars(given_or_current(&payload.name, &current.name).as_slice());
    let model_type = from_chars(given_or_current(&payload.model_type, &current.model_type).as_slice());
    let provider = from_chars(given_or_current(&payload.provider, &current.provider).as_slice());
    validate(name.as_str(), model_type.as_str(), provider.as_str())?;
    let is_default = if !str_eq(model_type.as_str(), current.model_type.as_str()) {
        0
    } else {
        current.is_default
    };
    Ok((ModelFields { name, model_type, provider }, is_default))
}

} // verus!

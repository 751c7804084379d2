//! A model of the catalog.

use vstd::prelude::*;

verus! {

/// A catalog entry: a model name offered for a protocol (`type`) by a
/// provider; `is_default` is 1 for the default model of its protocol.
#[derive(Debug, Clone)]
pub struct CatalogModel {
    pub id: String,
    pub name: String,
    pub model_type: String,
    pub provider: String,
    pub is_default: i64,
    pub created_at: String,
    pub updated_at: String,
}

} // verus!

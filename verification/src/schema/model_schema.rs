//! Request and response bodies of the model catalog API.

use vstd::prelude::*;

verus! {

/// A request to add a model to the catalog.
#[derive(Debug, Clone)]
pub struct ModelCreate {
    pub name: String,
    pub model_type: String,
    pub provider: String,
}

/// A request to change a catalog entry; what it leaves out keeps its value.
#[derive(Debug, Clone)]
pub struct ModelUpdate {
    pub name: Option<String>,
    pub model_type: Option<String>,
    pub provider: Option<String>,
}

/// A catalog entry as the API shows it.
#[derive(Debug, Clone)]
pub struct ModelView {
    pub id: String,
    pub name: String,
    pub model_type: String,
    pub provider: String,
    pub is_default: i64,
    pub created_at: String,
    pub updated_at: String,
}

} // verus!

//! Request and response bodies of the account API. Multipliers are kept as
//! the IEEE-754 bits of their `f64` values.

use vstd::prelude::*;

use crate::json::JsonValue;

verus! {

/// A request to create an account.
#[derive(Debug)]
pub struct AccountCreate {
    pub name: String,
    pub account_type: String,
    pub base_url: String,
    pub api_key: String,
    pub status: String,
    pub priority: i64,
    pub multiplier: u64,
    pub test_default_model: Option<String>,
    pub model_mappings: Option<JsonValue>,
    pub supported_models: Option<Vec<String>>,
    pub tags: Option<Vec<String>>,
    pub notes: Option<String>,
}

/// The status of a create request that names none.
pub fn default_status() -> (r: String)
    ensures
        r@ == "active"@,
{
    "active".to_string()
}

/// The priority of a create request that names none.
pub fn default_priority() -> (r: i64)
    ensures
        r == 5,
{
    5
}

/// The bits of 0.10, the multiplier of a create request that names none.
pub const DEFAULT_MULTIPLIER_BITS: u64 = 0x3FB9_9999_9999_999A;

/// The multiplier (as `f64` bits) of a create request that names none: 0.10.
pub fn default_multiplier() -> (r: u64)
    ensures
        r == DEFAULT_MULTIPLIER_BITS,
{
    DEFAULT_MULTIPLIER_BITS
}

/// A request to update an account; what it leaves out keeps its value.
#[derive(Debug)]
pub struct AccountUpdate {
    pub name: Option<String>,
    pub account_type: Option<String>,
    pub base_url: Option<String>,
    pub api_key: Option<String>,
    pub status: Option<String>,
    pub priority: Option<i64>,
    pub multiplier: Option<u64>,
    pub test_default_model: Option<String>,
    pub model_mappings: Option<JsonValue>,
    pub supported_models: Option<Vec<String>>,
    pub tags: Option<Vec<String>>,
    pub notes: Option<String>,
}

/// An account as the API shows it, its JSON columns parsed.
#[derive(Debug)]
pub struct AccountView {
    pub id: String,
    pub name: String,
    pub account_type: String,
    pub base_url: String,
    pub api_key: String,
    pub status: String,
    pub priority: i64,
    pub multiplier: u64,
    pub test_default_model: Option<String>,
    pub model_mappings: Option<JsonValue>,
    pub supported_models: Option<Vec<String>>,
    pub tags: Option<Vec<String>>,
    pub notes: Option<String>,
    pub last_error_code: Option<String>,
    pub last_error_message: Option<String>,
    pub last_successful_test_model: Option<String>,
    pub last_used_at: Option<String>,
    pub total_requests: i64,
    pub total_tokens: i64,
    pub monitor_average_duration_ms: Option<i64>,
    pub created_at: String,
    pub updated_at: String,
}

/// The query of the account list.
#[derive(Debug, Clone)]
pub struct AccountQuery {
    pub offset: Option<i64>,
    pub limit: Option<i64>,
    pub account_type: Option<String>,
    pub status: Option<String>,
    pub name: Option<String>,
}

/// The offset of a page: the requested one, at least 0 (0 by default).
pub open spec fn page_offset(offset: Option<i64>) -> i64 {
    match offset {
        Some(v) => if v < 0 {
            0
        } else {
            v
        },
        None => 0,
    }
}

/// The size of a page: the requested one within 1..=200 (50 by default).
pub open spec fn page_limit(limit: Option<i64>) -> i64 {
    match limit {
        Some(v) => if v < 1 {
            1
        } else if v > 200 {
            200
        } else {
            v
        },
        None => 50,
    }
}

impl AccountQuery {
    /// The offset and size of the requested page.
    pub fn page(&self) -> (r: (i64, i64))
        ensures
            r == (page_offset(self.offset), page_limit(self.limit)),
    {
        let offset = match self.offset {
            Some(v) => if v < 0 {
                0
            } else {
                v
            },
            None => 0,
        };
        let limit = match self.limit {
            Some(v) => if v < 1 {
                1
            } else if v > 200 {
                200
            } else {
                v
            },
            None => 50,
        };
        (offset, limit)
    }
}

/// A request to test an account, optionally with a given model.
#[derive(Debug, Clone)]
pub struct TestRequest {
    pub model: Option<String>,
}

/// A request to list the models that an upstream offers.
#[derive(Debug, Clone)]
pub struct DiscoverModelsRequest {
    pub account_type: String,
    pub base_url: String,
    pub api_key: String,
}

/// The models that an upstream offers.
#[derive(Debug, Clone)]
pub struct DiscoverModelsResponse {
    pub models: Vec<String>,
}

/// The outcome of testing an account.
#[derive(Debug, Clone)]
pub struct TestResult {
    pub account_id: String,
    pub success: bool,
    pub status_code: Option<u16>,
    pub error_code: Option<String>,
    pub error_message: Option<String>,
    pub response_body: Option<String>,
    pub model: Option<String>,
}

} // verus!

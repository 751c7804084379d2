//! An upstream account as it is stored.

use vstd::prelude::*;
use crate::text::copy_opt_string;

verus! {

/// An upstream account. The multiplier is kept as the IEEE-754 bits of its
/// `f64` value (`f64::to_bits`).
#[derive(Debug, Clone)]
pub struct Account {
    pub id: String,
    pub name: String,
    pub account_type: String,
    pub base_url: String,
    pub api_key_encrypted: String,
    pub status: String,
    pub priority: i64,
    pub multiplier: u64,
    pub test_default_model: Option<String>,
    pub model_mappings: Option<String>,
    pub supported_models: Option<String>,
    pub tags: Option<String>,
    pub notes: Option<String>,
    pub last_error_code: Option<String>,
    pub last_error_message: Option<String>,
    pub last_successful_test_model: Option<String>,
    pub last_used_at: Option<String>,
    pub total_requests: i64,
    pub total_tokens: i64,
    pub monitor_average_duration_ms: Option<i64>,
    pub created_at: String,
    pub updated_at: String,
}

impl Account {
    /// A copy of the account, equal to it.
    pub fn duplicate(&self) -> (r: Account)
        ensures
            r == *self,
    {
        Account {
            id: self.id.clone(),
            name: self.name.clone(),
            account_type: self.account_type.clone(),
            base_url: self.base_url.clone(),
            api_key_encrypted: self.api_key_encrypted.clone(),
            status: self.status.clone(),
            priority: self.priority,
            multiplier: self.multiplier,
            test_default_model: copy_opt_string(&self.test_default_model),
            model_mappings: copy_opt_string(&self.model_mappings),
            supported_models: copy_opt_string(&self.supported_models),
            tags: copy_opt_string(&self.tags),
            notes: copy_opt_string(&self.notes),
            last_error_code: copy_opt_string(&self.last_error_code),
            last_error_message: copy_opt_string(&self.last_error_message),
            last_successful_test_model: copy_opt_string(&self.last_successful_test_model),
            last_used_at: copy_opt_string(&self.last_used_at),
            total_requests: self.total_requests,
            total_tokens: self.total_tokens,
            monitor_average_duration_ms: self.monitor_average_duration_ms,
            created_at: self.created_at.clone(),
            updated_at: self.updated_at.clone(),
        }
    }
}

/// The place of an `f64`, given by its bits, in the order of `f64::total_cmp`
/// (IEEE 754 totalOrder: -NaN < -inf < negative numbers < -0 < +0 <
/// positive numbers < +inf < +NaN). Non-negative values keep their bits; the
/// order of negative values is the reverse of their bits.
pub open spec fn total_order_key(bits: u64) -> int {
    if bits < 0x8000_0000_0000_0000 {
        bits as int
    } else {
        0x7FFF_FFFF_FFFF_FFFF - bits as int
    }
}

/// `total_order_key` as an `i64`.
pub fn multiplier_key(bits: u64) -> (r: i64)
    ensures
        r == total_order_key(bits),
{
    if bits < 0x8000_0000_0000_0000 {
        bits as i64
    } else {
        let low = bits - 0x8000_0000_0000_0000;
        -1 - (low as i64)
    }
}

} // verus!

//! Request and response bodies of the multiplier monitor API.

use vstd::prelude::*;

verus! {

/// A request to create a monitor configuration.
#[derive(Debug, Clone)]
pub struct MultiplierMonitorCreate {
    pub name: String,
    pub url: String,
    pub token: String,
    pub refresh_token: String,
    pub account_ids: Vec<String>,
    pub multiplier_divisor: i64,
    pub enabled: bool,
}

/// A request to update a monitor configuration; absent tokens and divisor
/// keep the stored ones.
#[derive(Debug, Clone)]
pub struct MultiplierMonitorUpdate {
    pub name: String,
    pub url: String,
    pub token: Option<String>,
    pub refresh_token: Option<String>,
    pub account_ids: Vec<String>,
    pub multiplier_divisor: Option<i64>,
    pub enabled: bool,
}

/// The multiplier divisor of a create request that names none.
pub fn default_multiplier_divisor() -> (r: i64)
    ensures
        r == 1,
{
    1
}

/// Whether a create request that does not say is enabled.
pub fn default_enabled() -> (r: bool)
    ensures
        r,
{
    true
}

/// A monitor configuration as the API shows it.
#[derive(Debug, Clone)]
pub struct MultiplierMonitorConfigView {
    pub id: String,
    pub name: String,
    pub url: String,
    pub account_ids: Vec<String>,
    pub multiplier_divisor: i64,
    pub enabled: bool,
    pub has_token: bool,
    pub has_refresh_token: bool,
    pub last_started_at: Option<String>,
    pub last_finished_at: Option<String>,
    pub running: bool,
    pub last_run: Option<MultiplierMonitorRunSummary>,
    pub created_at: String,
    pub updated_at: String,
}

/// The counts of a configuration's latest run.
#[derive(Debug, Clone)]
pub struct MultiplierMonitorRunSummary {
    pub run_id: String,
    pub started_at: String,
    pub finished_at: String,
    pub total: i64,
    pub updated: i64,
    pub unchanged: i64,
    pub issues: i64,
    pub failed: i64,
}

/// The counts of one check.
#[derive(Debug, Clone)]
pub struct MultiplierMonitorCheckResult {
    pub run_id: String,
    pub total: i64,
    pub updated: i64,
    pub unchanged: i64,
    pub issues: i64,
    pub failed: i64,
}

/// Paging and filter of a log listing.
#[derive(Debug, Clone, Default)]
pub struct MultiplierMonitorLogQuery {
    pub offset: Option<i64>,
    pub limit: Option<i64>,
    pub result: Option<String>,
}

} // verus!

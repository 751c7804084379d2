//! A stored multiplier-monitor configuration and the statistics of its last run.

use vstd::prelude::*;

verus! {

/// A multiplier-monitor configuration as it is stored; `account_ids` is the
/// JSON text of the monitored account ids.
#[derive(Debug, Clone)]
pub struct MultiplierMonitorConfig {
    pub id: String,
    pub name: String,
    pub url: String,
    pub token: String,
    pub refresh_token: String,
    pub account_ids: String,
    pub multiplier_divisor: i64,
    pub enabled: bool,
    pub last_started_at: Option<String>,
    pub last_finished_at: Option<String>,
    pub lease_owner: Option<String>,
    pub lease_until: Option<String>,
    pub created_at: String,
    pub updated_at: String,
}

/// The counts of a configuration's latest run.
#[derive(Debug, Clone)]
pub struct LatestRunStats {
    pub run_id: String,
    pub started_at: String,
    pub finished_at: String,
    pub total: i64,
    pub updated: i64,
    pub unchanged: i64,
    pub issues: i64,
    pub failed: i64,
}

} // verus!

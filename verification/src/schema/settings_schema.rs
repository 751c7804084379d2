//! Request and response bodies of the settings API.

use vstd::prelude::*;

verus! {

/// The settings as the API shows and accepts them.
#[derive(Debug, Clone)]
pub struct SettingsPayload {
    pub host: String,
    pub port: u16,
    pub upstream_timeout_seconds: u64,
    pub first_token_timeout_seconds: u64,
    pub request_retry_attempts: u32,
    pub upstream_proxy_enabled: bool,
    pub upstream_proxy_url: String,
    pub monitoring_enabled: bool,
    pub local_token: String,
    pub launch_at_login: bool,
}

/// A request to switch monitoring on or off.
#[derive(Debug, Clone)]
pub struct MonitoringSettingsUpdate {
    pub monitoring_enabled: bool,
}

} // verus!

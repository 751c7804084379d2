pub mod account_model_discovery_service;
pub mod account_probe_service;
pub mod account_service;
pub mod multiplier_monitor_service;
pub mod multiplier_query;
pub mod scheduler_service;
pub mod settings_service;
pub mod usage_service;

pub mod multiplier_monitor_schema;
pub mod account_schema;
pub mod model_schema;
pub mod settings_schema;

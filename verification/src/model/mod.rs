pub mod account;
pub mod catalog_model;
pub mod multiplier_monitor;

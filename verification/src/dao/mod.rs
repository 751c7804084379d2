pub mod ranking;
pub mod account_dao;
pub mod model_dao;
pub mod usage_dao;

//! AIMux gateway core: the validation, parsing and decision logic of the AIMux
//! model gateway, with contracts checked by Verus.

pub mod background;
pub mod config;
pub mod error;
pub mod gateway;
pub mod json;
pub mod model;
pub mod dao;
pub mod schema;
pub mod service;
pub mod text;
pub mod upstream;
pub mod utils;

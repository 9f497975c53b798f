//! The MySQL connector's logic: identifier validation, typed parameter
//! binding, parameterised SELECT / INSERT compilation and the MySQL ↔
//! Arrow type mapping.

pub mod ident;
pub mod types;
pub mod query;
pub mod insert;
pub mod arrow_schema;
pub mod introspection;
pub mod connector;
pub mod table_provider;
pub mod catalog;
pub mod factory;

pub use crate::config::source::{MysqlSourceConfig, MysqlSslMode};
pub use factory::{register, MysqlFactory, KIND};

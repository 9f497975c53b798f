//! EventHorizon: typed intents, declarative routing, and parameterised SQL
//! compilation for a data gateway.

pub mod text;
pub mod strmap;
pub mod json;
pub mod values;
pub mod artifact;
pub mod caller_context;
pub mod error;
pub mod intent;
pub mod entity;
pub mod access;
pub mod config;
pub mod router;
pub mod compiler;
pub mod engine;
pub mod protocol;
pub mod dispatch;
pub mod telemetry;
pub mod connector;
pub mod mysql;

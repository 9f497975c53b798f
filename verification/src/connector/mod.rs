//! The connector contract: capability declarations, the typed connector
//! error taxonomy, write outcomes and the registry of connector kinds.

pub mod caps;
pub mod errors;
pub mod outcome;
pub mod registry;

//! Stable span and metric label keys.

use vstd::prelude::*;

verus! {

/// Logical entity name.
pub const ENTITY: &'static str = "entity";

/// Action: `read` or `append`.
pub const ACTION: &'static str = "action";

/// Outcome: `ok` or `error`.
pub const OUTCOME: &'static str = "outcome";

/// Error code.
pub const CODE: &'static str = "code";

} // verus!

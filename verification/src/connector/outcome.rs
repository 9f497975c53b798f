//! Outcomes of write operations.

use vstd::prelude::*;

verus! {

/// What a successful append returns.
#[derive(Debug, Clone, Copy, PartialEq, Eq, Structural)]
pub struct AppendOutcome {
    /// Number of rows inserted.
    pub rows_inserted: u64,
}

impl AppendOutcome {
    /// One row inserted.
    pub fn one() -> (r: Self)
        ensures
            r.rows_inserted == 1,
    {
        AppendOutcome { rows_inserted: 1 }
    }
}

} // verus!

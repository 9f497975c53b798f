//! Stable metric names.

use vstd::prelude::*;

verus! {

/// Per-intent end-to-end latency histogram (milliseconds).
pub const INTENT_LATENCY_MS: &'static str = "eh_intent_latency_ms";

/// Per-intent counter. Labels: `entity`, `action`, `outcome`.
pub const INTENT_COUNT: &'static str = "eh_intent_count_total";

/// Per-intent error counter. Labels: `entity`, `action`, `code`.
pub const INTENT_ERROR_COUNT: &'static str = "eh_intent_error_count_total";

} // verus!

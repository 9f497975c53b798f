//! Telemetry vocabulary: the metric names and label keys every emitter
//! uses, and the errors of telemetry initialisation.

pub mod label;
pub mod metric_name;

use vstd::prelude::*;
use vstd::string::StringExecFns;

use crate::text::debug_quoted;
use crate::text::quote_debug;

verus! {

/// The log filter used when none is given and the environment sets none.
pub const DEFAULT_LOG_FILTER: &'static str = "info,eh=debug";

/// Errors telemetry initialisation can raise.
#[derive(Debug)]
pub enum TelemetryError {
    /// The tracing subscriber could not be installed.
    TracingInit(String),
    /// The Prometheus recorder could not be installed.
    PrometheusInit(String),
    /// A log filter directive is invalid: the filter and why.
    InvalidFilter(String, String),
}

/// The text a telemetry error displays.
pub open spec fn telemetry_error_text(e: TelemetryError) -> Seq<char> {
    match e {
        TelemetryError::TracingInit(m) => "tracing subscriber init failed: "@ + m@,
        TelemetryError::PrometheusInit(m) => "prometheus recorder install failed: "@ + m@,
        TelemetryError::InvalidFilter(f, m) => "invalid log filter "@ + debug_quoted(f@) + ": "@ + m@,
    }
}

impl TelemetryError {
    /// The human-readable message of this error.
    pub fn message(&self) -> (r: String)
        ensures
            r@ == telemetry_error_text(*self),
    {
        match self {
            TelemetryError::TracingInit(m) => {
                let mut s = String::from_str("tracing subscriber init failed: ");
                s.append(m.as_str());
                s
            },
            TelemetryError::PrometheusInit(m) => {
                let mut s = String::from_str("prometheus recorder install failed: ");
                s.append(m.as_str());
                s
            },
            TelemetryError::InvalidFilter(f, m) => {
                let mut s = String::from_str("invalid log filter ");
                s.append(quote_debug(f.as_str()).as_str());
                s.append(": ");
                s.append(m.as_str());
                s
            },
        }
    }
}

} // verus!

//! Wire-format envelopes and structured errors of the edges.
//!
//! Every error the edge surfaces is one of a small, named set of
//! `ErrorCode`s, so client code can branch on the code without parsing the
//! human-readable message.

use vstd::prelude::*;

use crate::artifact::Artifact;
use crate::intent::Intent;

verus! {

/// Categories of error the gateway surfaces to a caller.
#[derive(Debug, Clone, Copy, PartialEq, Eq, Hash, Structural)]
pub enum ErrorCode {
    /// Missing or invalid agent credentials.
    Unauthorized,
    /// The agent lacks the capability for this intent.
    Forbidden,
    /// The intent fails validation.
    InvalidIntent,
    /// The intent names an undeclared entity.
    UnknownEntity,
    /// No binding satisfies the routing for this intent.
    NoBinding,
    /// Estimated cost exceeds the budget.
    OverBudget,
    /// The source's circuit breaker is open.
    CircuitOpen,
    /// Rate limit hit; retry after the hint.
    RateLimited,
    /// Unexpected failure inside a connector.
    ConnectorError,
    /// Server-side configuration error.
    ConfigError,
    /// Catch-all for unmapped failures.
    Internal,
}

/// The wire name of an error code (`snake_case`).
pub open spec fn spec_error_code_name(c: ErrorCode) -> Seq<char> {
    match c {
        ErrorCode::Unauthorized => "unauthorized"@,
        ErrorCode::Forbidden => "forbidden"@,
        ErrorCode::InvalidIntent => "invalid_intent"@,
        ErrorCode::UnknownEntity => "unknown_entity"@,
        ErrorCode::NoBinding => "no_binding"@,
        ErrorCode::OverBudget => "over_budget"@,
        ErrorCode::CircuitOpen => "circuit_open"@,
        ErrorCode::RateLimited => "rate_limited"@,
        ErrorCode::ConnectorError => "connector_error"@,
        ErrorCode::ConfigError => "config_error"@,
        ErrorCode::Internal => "internal"@,
    }
}

/// The wire name of an error code.
pub fn error_code_name(c: ErrorCode) -> (r: &'static str)
    ensures
        r@ == spec_error_code_name(c),
{
    match c {
        ErrorCode::Unauthorized => "unauthorized",
        ErrorCode::Forbidden => "forbidden",
        ErrorCode::InvalidIntent => "invalid_intent",
        ErrorCode::UnknownEntity => "unknown_entity",
        ErrorCode::NoBinding => "no_binding",
        ErrorCode::OverBudget => "over_budget",
        ErrorCode::CircuitOpen => "circuit_open",
        ErrorCode::RateLimited => "rate_limited",
        ErrorCode::ConnectorError => "connector_error",
        ErrorCode::ConfigError => "config_error",
        ErrorCode::Internal => "internal",
    }
}

/// Wire-format error body.
#[derive(Debug)]
pub struct ErrorResponse {
    /// Stable code clients can branch on.
    pub code: ErrorCode,
    /// Human-readable message; not stable.
    pub message: String,
    /// Suggested back-off in milliseconds.
    pub retry_after_ms: Option<u64>,
}

impl ErrorResponse {
    /// An error response with a code and message, and no retry hint.
    pub fn new(code: ErrorCode, message: String) -> (r: Self)
        ensures
            r.code == code,
            r.message@ == message@,
            r.retry_after_ms is None,
    {
        ErrorResponse { code, message, retry_after_ms: None }
    }

    /// An error response with a code, message and retry hint.
    pub fn with_retry(code: ErrorCode, message: String, retry_after_ms: u64) -> (r: Self)
        ensures
            r.code == code,
            r.message@ == message@,
            r.retry_after_ms == Some(retry_after_ms),
    {
        ErrorResponse { code, message, retry_after_ms: Some(retry_after_ms) }
    }
}

/// Wire-format request body: the intent and the calling agent's token.
pub struct IntentEnvelope {
    /// The bearer token identifying the calling agent.
    pub agent_token: String,
    /// The intent body.
    pub intent: Intent,
}

/// Wire-format response body: a success carrying the artifact, or an
/// error, never both.
#[derive(Debug)]
pub enum ResponseEnvelope {
    /// The intent executed; the artifact carries the rows.
    Success(Artifact),
    /// The intent was rejected.
    Error(ErrorResponse),
}

impl ResponseEnvelope {
    /// True for a success response.
    pub fn is_success(&self) -> (r: bool)
        ensures
            r == (self is Success),
    {
        match self {
            ResponseEnvelope::Success(_) => true,
            ResponseEnvelope::Error(_) => false,
        }
    }

    /// True for an error response.
    pub fn is_error(&self) -> (r: bool)
        ensures
            r == (self is Error),
    {
        match self {
            ResponseEnvelope::Success(_) => false,
            ResponseEnvelope::Error(_) => true,
        }
    }
}

/// A response is a success or an error, never both.
pub proof fn lemma_response_exclusive(r: ResponseEnvelope)
    ensures
        (r is Success) != (r is Error),
{
}

} // verus!

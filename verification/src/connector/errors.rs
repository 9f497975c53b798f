//! Typed connector errors.

use vstd::prelude::*;
use vstd::string::StringExecFns;

use crate::intent::{action_name, spec_action_name, Action};

verus! {

/// Categories of connector failure the gateway distinguishes.
#[derive(Debug)]
pub enum ConnectorError {
    /// The backend could not be reached or authenticated against.
    Connect(String),
    /// The connector is alive but not healthy.
    Unhealthy(String),
    /// The intent cannot be compiled into a query the backend accepts.
    InvalidIntent(String),
    /// The backend refused the operation (e.g. a missing grant).
    EngineRefusal(String),
    /// A value does not have the type its field declares.
    TypeMismatch {
        /// Logical field name.
        field: String,
        /// Type the entity declared.
        expected: String,
        /// Type seen on the wire.
        actual: String,
    },
    /// The backend reported an unrecoverable error.
    Backend(String),
    /// The connector does not implement the action.
    Unsupported(Action),
}

/// A connector error by value.
pub enum ConnectorErrorView {
    Connect(Seq<char>),
    Unhealthy(Seq<char>),
    InvalidIntent(Seq<char>),
    EngineRefusal(Seq<char>),
    TypeMismatch(Seq<char>, Seq<char>, Seq<char>),
    Backend(Seq<char>),
    Unsupported(Action),
}

impl View for ConnectorError {
    type V = ConnectorErrorView;

    open spec fn view(&self) -> ConnectorErrorView {
        match self {
            ConnectorError::Connect(m) => ConnectorErrorView::Connect(m@),
            ConnectorError::Unhealthy(m) => ConnectorErrorView::Unhealthy(m@),
            ConnectorError::InvalidIntent(m) => ConnectorErrorView::InvalidIntent(m@),
            ConnectorError::EngineRefusal(m) => ConnectorErrorView::EngineRefusal(m@),
            ConnectorError::TypeMismatch { field, expected, actual } => ConnectorErrorView::TypeMismatch(
                field@,
                expected@,
                actual@,
            ),
            ConnectorError::Backend(m) => ConnectorErrorView::Backend(m@),
            ConnectorError::Unsupported(a) => ConnectorErrorView::Unsupported(*a),
        }
    }
}

/// The text of a type mismatch.
pub open spec fn mismatch_text(field: Seq<char>, expected: Seq<char>, actual: Seq<char>) -> Seq<char> {
    "type mismatch on field `"@ + field + "`: expected "@ + expected + ", got "@ + actual
}

/// The text a connector error displays.
pub open spec fn connector_error_text(e: ConnectorErrorView) -> Seq<char> {
    match e {
        ConnectorErrorView::Connect(m) => "connect failed: "@ + m,
        ConnectorErrorView::Unhealthy(m) => "unhealthy: "@ + m,
        ConnectorErrorView::InvalidIntent(m) => "invalid intent for connector: "@ + m,
        ConnectorErrorView::EngineRefusal(m) => "engine refusal: "@ + m,
        ConnectorErrorView::TypeMismatch(f, x, a) => mismatch_text(f, x, a),
        ConnectorErrorView::Backend(m) => "backend error: "@ + m,
        ConnectorErrorView::Unsupported(a) => "connector does not support action `"@ + spec_action_name(a) + "`"@,
    }
}

/// Builds the text of a type mismatch.
pub fn mismatch_message(field: &str, expected: &str, actual: &str) -> (r: String)
    ensures
        r@ == mismatch_text(field@, expected@, actual@),
{
    let mut s = String::from_str("type mismatch on field `");
    s.append(field);
    s.append("`: expected ");
    s.append(expected);
    s.append(", got ");
    s.append(actual);
    s
}

fn prefixed(prefix: &str, m: &String) -> (r: String)
    ensures
        r@ == prefix@ + m@,
{
    let mut s = String::from_str(prefix);
    s.append(m.as_str());
    s
}

impl ConnectorError {
    /// The human-readable message of this error.
    pub fn message(&self) -> (r: String)
        ensures
            r@ == connector_error_text(self@),
    {
        match self {
            ConnectorError::Connect(m) => prefixed("connect failed: ", m),
            ConnectorError::Unhealthy(m) => prefixed("unhealthy: ", m),
            ConnectorError::InvalidIntent(m) => prefixed("invalid intent for connector: ", m),
            ConnectorError::EngineRefusal(m) => prefixed("engine refusal: ", m),
            ConnectorError::TypeMismatch { field, expected, actual } => mismatch_message(
                field.as_str(),
                expected.as_str(),
                actual.as_str(),
            ),
            ConnectorError::Backend(m) => prefixed("backend error: ", m),
            ConnectorError::Unsupported(a) => {
                let mut s = String::from_str("connector does not support action `");
                s.append(action_name(*a));
                s.append("`");
                s
            },
        }
    }
}

} // verus!

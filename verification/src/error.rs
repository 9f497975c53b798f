//! The typed error kinds every layer maps to.

use vstd::prelude::*;
use vstd::string::StringExecFns;

verus! {

/// Typed errors of the core layer. `Other` carries an error from a layer
/// below by the text it displays.
#[derive(Debug)]
pub enum Error {
    /// An intent named an entity the configuration does not declare.
    UnknownEntity(String),
    /// A binding named a source the configuration does not declare.
    UnknownSource(String),
    /// The intent breaks a structural rule.
    InvalidIntent(String),
    /// Configuration parse or validation failure.
    Config(String),
    /// A value does not have the type its field declares.
    TypeMismatch {
        /// Logical field name.
        field: String,
        /// Type the entity declared.
        expected: String,
        /// Type the connector produced.
        actual: String,
    },
    /// Any other error from a layer below, by its message.
    Other(String),
}

/// The message of an error; `Other` shows the lower layer's message as is.
pub open spec fn error_text(e: Error) -> Seq<char> {
    match e {
        Error::UnknownEntity(n) => "unknown entity: "@ + n@,
        Error::UnknownSource(n) => "unknown source: "@ + n@,
        Error::InvalidIntent(m) => "invalid intent: "@ + m@,
        Error::Config(m) => "config error: "@ + m@,
        Error::TypeMismatch { field, expected, actual } => "type mismatch on field `"@ + field@ + "`: expected "@
            + expected@ + ", got "@ + actual@,
        Error::Other(m) => m@,
    }
}

impl Error {
    /// The human-readable message of this error.
    pub fn message(&self) -> (r: String)
        ensures
            r@ == error_text(*self),
    {
        match self {
            Error::UnknownEntity(n) => {
                let mut s = String::from_str("unknown entity: ");
                s.append(n.as_str());
                s
            },
            Error::UnknownSource(n) => {
                let mut s = String::from_str("unknown source: ");
                s.append(n.as_str());
                s
            },
            Error::InvalidIntent(m) => {
                let mut s = String::from_str("invalid intent: ");
                s.append(m.as_str());
                s
            },
            Error::Config(m) => {
                let mut s = String::from_str("config error: ");
                s.append(m.as_str());
                s
            },
            Error::TypeMismatch { field, expected, actual } => {
                let mut s = String::from_str("type mismatch on field `");
                s.append(field.as_str());
                s.append("`: expected ");
                s.append(expected.as_str());
                s.append(", got ");
                s.append(actual.as_str());
                s
            },
            Error::Other(m) => m.clone(),
        }
    }
}

} // verus!

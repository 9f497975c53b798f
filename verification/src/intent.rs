//! `Intent` — what an agent asks for: an action on a named entity, shaped
//! by an optional mode, projection, filter and payload.

use vstd::prelude::*;

use crate::json::JsonValue;

verus! {

/// What the agent wants done with an entity.
#[derive(Debug, Clone, Copy, PartialEq, Eq, Hash, Structural)]
pub enum Action {
    /// Read rows from the entity (`SELECT`).
    Read,
    /// Append a new row (`INSERT` only; never update or upsert).
    Append,
}

/// Shape of a read.
#[derive(Debug, Clone, Copy, PartialEq, Eq, Hash, Structural)]
pub enum Mode {
    /// Single-row lookup.
    Point,
    /// Time-series aggregation over a window.
    Trend,
    /// Group-by aggregation.
    Aggregate,
    /// Windowed aggregation.
    Window,
}

/// What an agent sends through the gateway.
pub struct Intent {
    /// What to do.
    pub action: Action,
    /// Which entity to act on.
    pub entity: String,
    /// Shape modifier for `Read` intents; `None` means `Point`.
    pub mode: Option<Mode>,
    /// Projection: logical field names to include; `None` means all.
    pub fields: Option<Vec<String>>,
    /// Equality filter, a JSON object keyed by logical field name.
    pub filter: Option<JsonValue>,
    /// For `Append`: the row to insert, keyed by logical field name.
    pub payload: Option<JsonValue>,
}

/// The mode an intent runs in: reads default to `Point`, appends have none.
pub open spec fn spec_effective_mode(action: Action, mode: Option<Mode>) -> Option<Mode> {
    match action {
        Action::Read => Some(
            match mode {
                Some(m) => m,
                None => Mode::Point,
            },
        ),
        Action::Append => None,
    }
}

impl Intent {
    /// Returns the effective `Mode`: `Read` intents without an explicit mode
    /// default to `Point`; non-`Read` intents return `None`.
    pub fn effective_mode(&self) -> (r: Option<Mode>)
        ensures
            r == spec_effective_mode(self.action, self.mode),
    {
        match self.action {
            Action::Read => Some(
                match self.mode {
                    Some(m) => m,
                    None => Mode::Point,
                },
            ),
            Action::Append => None,
        }
    }
}

/// The lowercase label of an action, as metrics and logs carry it.
pub open spec fn spec_action_label(action: Action) -> Seq<char> {
    match action {
        Action::Read => "read"@,
        Action::Append => "append"@,
    }
}

/// The variant name of an action, as its `Debug` rendering shows it.
pub open spec fn spec_action_name(action: Action) -> Seq<char> {
    match action {
        Action::Read => "Read"@,
        Action::Append => "Append"@,
    }
}

/// The lowercase label of an action (`"read"` / `"append"`).
pub fn action_label(action: Action) -> (r: &'static str)
    ensures
        r@ == spec_action_label(action),
{
    match action {
        Action::Read => "read",
        Action::Append => "append",
    }
}

/// The variant name of an action (`"Read"` / `"Append"`).
pub fn action_name(action: Action) -> (r: &'static str)
    ensures
        r@ == spec_action_name(action),
{
    match action {
        Action::Read => "Read",
        Action::Append => "Append",
    }
}


/// The `Debug` rendering of an optional mode (`None`, `Some(Point)`, ...).
pub open spec fn spec_mode_debug(mode: Option<Mode>) -> Seq<char> {
    match mode {
        None => "None"@,
        Some(Mode::Point) => "Some(Point)"@,
        Some(Mode::Trend) => "Some(Trend)"@,
        Some(Mode::Aggregate) => "Some(Aggregate)"@,
        Some(Mode::Window) => "Some(Window)"@,
    }
}

/// The `Debug` rendering of an optional mode.
pub fn mode_debug(mode: Option<Mode>) -> (r: &'static str)
    ensures
        r@ == spec_mode_debug(mode),
{
    match mode {
        None => "None",
        Some(Mode::Point) => "Some(Point)",
        Some(Mode::Trend) => "Some(Trend)",
        Some(Mode::Aggregate) => "Some(Aggregate)",
        Some(Mode::Window) => "Some(Window)",
    }
}

} // verus!

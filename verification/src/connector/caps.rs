//! Connector capability declarations.

use vstd::prelude::*;

verus! {

/// How exactly a connector can satisfy `WHERE` clauses.
#[derive(Debug, Clone, Copy, PartialEq, Eq, Hash, Structural)]
pub enum PushdownLevel {
    /// No predicate pushdown; the gateway filters in-process.
    NoPushdown,
    /// Some predicates pushed; the gateway must post-filter.
    Inexact,
    /// Supported predicates pushed exactly.
    Exact,
}

/// What a connector declares it can do.
#[derive(Debug, Clone, Copy, PartialEq, Eq, Structural)]
pub struct ConnectorCaps {
    /// Implements `execute_read`.
    pub supports_read: bool,
    /// Implements `execute_append` (INSERT only).
    pub supports_append: bool,
    /// Pushdown level for WHERE clauses.
    pub predicate_pushdown: PushdownLevel,
    /// Projects columns server-side.
    pub projection_pushdown: bool,
    /// Streams row batches instead of materialising results.
    pub streaming: bool,
}

impl ConnectorCaps {
    /// Conservative defaults: the connector declares no capability.
    pub fn none() -> (r: Self)
        ensures
            !r.supports_read,
            !r.supports_append,
            r.predicate_pushdown == PushdownLevel::NoPushdown,
            !r.projection_pushdown,
            !r.streaming,
    {
        ConnectorCaps {
            supports_read: false,
            supports_append: false,
            predicate_pushdown: PushdownLevel::NoPushdown,
            projection_pushdown: false,
            streaming: false,
        }
    }
}

} // verus!

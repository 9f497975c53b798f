//! Routing rules: the declarative `(entity, action, mode) → source` map.
//! The first rule whose predicate covers an intent wins.

use vstd::prelude::*;

use crate::intent::{Action, Mode};
use crate::text::str_eq;

verus! {

/// What a rule matches: a required entity, and optionally an action and a
/// mode (absent = any).
#[derive(Debug)]
pub struct RoutingMatch {
    /// Logical entity name to match.
    pub entity: String,
    /// Action to match; `None` matches any action.
    pub action: Option<Action>,
    /// Mode to match; `None` matches any mode.
    pub mode: Option<Mode>,
}

impl RoutingMatch {
    /// True when this predicate covers `(entity, action, mode)`.
    pub open spec fn spec_covers(&self, entity: Seq<char>, action: Action, mode: Option<Mode>) -> bool {
        &&& self.entity@ == entity
        &&& (self.action matches Some(want) ==> want == action)
        &&& (self.mode matches Some(want) ==> mode == Some(want))
    }

    /// True when this predicate covers `(entity, action, mode)`: the entity
    /// matches, and the action and mode match where the rule names them.
    pub fn covers(&self, entity: &str, action: Action, mode: Option<Mode>) -> (r: bool)
        ensures
            r == self.spec_covers(entity@, action, mode),
    {
        if !str_eq(self.entity.as_str(), entity) {
            return false;
        }
        if let Some(want) = self.action {
            if want != action {
                return false;
            }
        }
        if let Some(want) = self.mode {
            match mode {
                Some(m) => {
                    if m != want {
                        return false;
                    }
                },
                None => {
                    return false;
                },
            }
        }
        true
    }
}

/// One routing rule: a predicate and the name of the target source.
#[derive(Debug)]
pub struct RoutingRule {
    /// Match predicate.
    pub when: RoutingMatch,
    /// Name of the target source.
    pub target: String,
}

} // verus!

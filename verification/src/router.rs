//! Routing: resolve an intent against the compiled config to the entity,
//! binding and source that serve it. The first covering rule wins.

use vstd::prelude::*;
use vstd::string::StringExecFns;

use crate::config::compiled::CompiledConfig;
use crate::config::routing::RoutingRule;
use crate::entity::{Entity, EntityBinding};
use crate::intent::{action_name, mode_debug, spec_action_name, spec_effective_mode, spec_mode_debug, Action, Intent, Mode};
use crate::text::{debug_quoted, quote_debug, str_eq};

verus! {

/// Result of routing an intent.
#[derive(Debug)]
pub struct RoutedIntent {
    /// The bound entity.
    pub entity: Entity,
    /// The selected binding.
    pub binding: EntityBinding,
    /// Name of the target source.
    pub source_name: String,
}

/// Typed routing errors.
#[derive(Debug)]
pub enum RouterError {
    /// The intent names an undeclared entity.
    UnknownEntity(String),
    /// No routing rule covers the `(entity, action, mode)` tuple.
    NoRoute {
        /// Entity name.
        entity: String,
        /// Requested action.
        action: Action,
        /// Effective mode.
        mode: Option<Mode>,
    },
    /// A rule matched but no binding of the entity targets its source.
    NoBindingForRoute {
        /// Entity name.
        entity: String,
        /// Source named by the matching rule.
        source_name: String,
    },
    /// The selected binding does not declare the requested action.
    ActionNotSupported {
        /// Entity name.
        entity: String,
        /// Requested action.
        action: Action,
        /// Source the binding routes to.
        source_name: String,
    },
}

/// A routing error by value.
pub enum RouterErrorView {
    UnknownEntity(Seq<char>),
    NoRoute(Seq<char>, Action, Option<Mode>),
    NoBindingForRoute(Seq<char>, Seq<char>),
    ActionNotSupported(Seq<char>, Action, Seq<char>),
}

impl View for RouterError {
    type V = RouterErrorView;

    open spec fn view(&self) -> RouterErrorView {
        match self {
            RouterError::UnknownEntity(e) => RouterErrorView::UnknownEntity(e@),
            RouterError::NoRoute { entity, action, mode } => RouterErrorView::NoRoute(entity@, *action, *mode),
            RouterError::NoBindingForRoute { entity, source_name } => RouterErrorView::NoBindingForRoute(
                entity@,
                source_name@,
            ),
            RouterError::ActionNotSupported { entity, action, source_name } => RouterErrorView::ActionNotSupported(
                entity@,
                *action,
                source_name@,
            ),
        }
    }
}

/// The text a routing error displays.
pub open spec fn router_error_text(e: RouterErrorView) -> Seq<char> {
    match e {
        RouterErrorView::UnknownEntity(n) => "unknown entity "@ + debug_quoted(n),
        RouterErrorView::NoRoute(n, a, m) => "no routing rule matches entity "@ + debug_quoted(n) + " action "@
            + spec_action_name(a) + " mode "@ + spec_mode_debug(m),
        RouterErrorView::NoBindingForRoute(n, s) => "routing rule targets source "@ + debug_quoted(s)
            + " but no binding for entity "@ + debug_quoted(n) + " → that source"@,
        RouterErrorView::ActionNotSupported(n, a, s) => "binding for entity "@ + debug_quoted(n) + " on source "@
            + debug_quoted(s) + " does not declare action "@ + spec_action_name(a),
    }
}

impl RouterError {
    /// The human-readable message of this error.
    pub fn message(&self) -> (r: String)
        ensures
            r@ == router_error_text(self@),
    {
        match self {
            RouterError::UnknownEntity(n) => {
                let mut s = String::from_str("unknown entity ");
                s.append(quote_debug(n.as_str()).as_str());
                s
            },
            RouterError::NoRoute { entity, action, mode } => {
                let mut s = String::from_str("no routing rule matches entity ");
                s.append(quote_debug(entity.as_str()).as_str());
                s.append(" action ");
                s.append(action_name(*action));
                s.append(" mode ");
                s.append(mode_debug(*mode));
                s
            },
            RouterError::NoBindingForRoute { entity, source_name } => {
                let mut s = String::from_str("routing rule targets source ");
                s.append(quote_debug(source_name.as_str()).as_str());
                s.append(" but no binding for entity ");
                s.append(quote_debug(entity.as_str()).as_str());
                s.append(" → that source");
                s
            },
            RouterError::ActionNotSupported { entity, action, source_name } => {
                let mut s = String::from_str("binding for entity ");
                s.append(quote_debug(entity.as_str()).as_str());
                s.append(" on source ");
                s.append(quote_debug(source_name.as_str()).as_str());
                s.append(" does not declare action ");
                s.append(action_name(*action));
                s
            },
        }
    }
}

/// The first rule whose predicate covers `(entity, action, mode)`.
pub open spec fn first_covering_rule(
    rules: Seq<RoutingRule>,
    entity: Seq<char>,
    action: Action,
    mode: Option<Mode>,
) -> Option<RoutingRule>
    decreases rules.len(),
{
    if rules.len() == 0 {
        None
    } else if rules[0].when.spec_covers(entity, action, mode) {
        Some(rules[0])
    } else {
        first_covering_rule(rules.drop_first(), entity, action, mode)
    }
}

/// The first binding that targets `source`.
pub open spec fn first_binding_to(bindings: Seq<EntityBinding>, source: Seq<char>) -> Option<EntityBinding>
    decreases bindings.len(),
{
    if bindings.len() == 0 {
        None
    } else if bindings[0].source@ == source {
        Some(bindings[0])
    } else {
        first_binding_to(bindings.drop_first(), source)
    }
}

/// Why an intent cannot be routed, if it cannot.
pub open spec fn route_failure(intent: Intent, cfg: CompiledConfig) -> Option<RouterErrorView> {
    let mode = spec_effective_mode(intent.action, intent.mode);
    if !cfg.entities.has_key(intent.entity@) {
        Some(RouterErrorView::UnknownEntity(intent.entity@))
    } else {
        match first_covering_rule(cfg.routing@, intent.entity@, intent.action, mode) {
            None => Some(RouterErrorView::NoRoute(intent.entity@, intent.action, mode)),
            Some(rule) => match first_binding_to(cfg.spec_bindings_for(intent.entity@), rule.target@) {
                None => Some(RouterErrorView::NoBindingForRoute(intent.entity@, rule.target@)),
                Some(b) => if !b.supported_actions@.contains(intent.action) {
                    Some(RouterErrorView::ActionNotSupported(intent.entity@, intent.action, b.source@))
                } else {
                    None
                },
            },
        }
    }
}

/// Resolve an intent against the loaded config: look the entity up, take
/// the first routing rule covering `(entity, action, effective mode)`, find
/// the entity's first binding to that rule's target, and check that the
/// binding declares the action.
pub fn route(intent: &Intent, cfg: &CompiledConfig) -> (r: Result<RoutedIntent, RouterError>)
    ensures
        match route_failure(*intent, *cfg) {
            Some(e) => r matches Err(err) && err@ == e,
            None => r matches Ok(ri) && {
                let mode = spec_effective_mode(intent.action, intent.mode);
                let rule = first_covering_rule(cfg.routing@, intent.entity@, intent.action, mode)->0;
                let b = first_binding_to(cfg.spec_bindings_for(intent.entity@), rule.target@)->0;
                let e = cfg.entities.spec_get(intent.entity@)->0;
                &&& ri.entity.name == e.name
                &&& ri.entity.fields@ == e.fields@
                &&& ri.binding@ == b@
                &&& ri.source_name@ == rule.target@
            },
        },
{
    let entity = match cfg.entity(intent.entity.as_str()) {
        Some(e) => e,
        None => {
            return Err(RouterError::UnknownEntity(intent.entity.clone()));
        },
    };
    let action = intent.action;
    let mode = intent.effective_mode();
    let n = cfg.routing.len();
    let mut i: usize = 0;
    assert(cfg.routing@.skip(0) =~= cfg.routing@);
    while i < n
        invariant
            n == cfg.routing@.len(),
            i <= n,
            mode == spec_effective_mode(intent.action, intent.mode),
            action == intent.action,
            cfg.entities.spec_get(intent.entity@) == Some(*entity),
            first_covering_rule(cfg.routing@, intent.entity@, action, mode) == first_covering_rule(
                cfg.routing@.skip(i as int),
                intent.entity@,
                action,
                mode,
            ),
        decreases n - i,
    {
        let rule = &cfg.routing[i];
        let ghost rest = cfg.routing@.skip(i as int);
        assert(rest[0] == cfg.routing@[i as int]);
        if rule.when.covers(intent.entity.as_str(), action, mode) {
            assert(first_covering_rule(cfg.routing@, intent.entity@, action, mode) == Some(*rule));
            let bindings = cfg.bindings_for_entity(intent.entity.as_str());
            let m = bindings.len();
            let mut j: usize = 0;
            assert(bindings@.skip(0) =~= bindings@);
            while j < m
                invariant
                    m == bindings@.len(),
                    j <= m,
                    mode == spec_effective_mode(intent.action, intent.mode),
                    action == intent.action,
                    cfg.entities.spec_get(intent.entity@) == Some(*entity),
                    first_covering_rule(cfg.routing@, intent.entity@, action, mode) == Some(*rule),
                    bindings@ == cfg.spec_bindings_for(intent.entity@),
                    first_binding_to(bindings@, rule.target@) == first_binding_to(bindings@.skip(j as int), rule.target@),
                decreases m - j,
            {
                let ghost brest = bindings@.skip(j as int);
                assert(brest[0] == bindings@[j as int]);
                if str_eq(bindings[j].source.as_str(), rule.target.as_str()) {
                    let binding = bindings[j].clone();
                    if !binding.supports(action) {
                        return Err(RouterError::ActionNotSupported {
                            entity: intent.entity.clone(),
                            action,
                            source_name: binding.source.clone(),
                        });
                    }
                    return Ok(RoutedIntent {
                        entity: entity.clone(),
                        binding,
                        source_name: rule.target.clone(),
                    });
                }
                assert(brest.drop_first() =~= bindings@.skip(j + 1));
                j = j + 1;
            }
            assert(bindings@.skip(m as int).len() == 0);
            return Err(RouterError::NoBindingForRoute {
                entity: intent.entity.clone(),
                source_name: rule.target.clone(),
            });
        }
        assert(rest.drop_first() =~= cfg.routing@.skip(i + 1));
        i = i + 1;
    }
    assert(cfg.routing@.skip(n as int).len() == 0);
    Err(RouterError::NoRoute { entity: intent.entity.clone(), action, mode })
}

/// A routed intent is served by a binding that targets the selected source
/// and declares the requested action.
pub proof fn lemma_routed_binding_serves(intent: Intent, cfg: CompiledConfig)
    requires
        route_failure(intent, cfg) is None,
    ensures
        ({
            let mode = spec_effective_mode(intent.action, intent.mode);
            let rule = first_covering_rule(cfg.routing@, intent.entity@, intent.action, mode)->0;
            let b = first_binding_to(cfg.spec_bindings_for(intent.entity@), rule.target@)->0;
            &&& rule.when.spec_covers(intent.entity@, intent.action, mode)
            &&& b.source@ == rule.target@
            &&& b.supported_actions@.contains(intent.action)
        }),
{
    let mode = spec_effective_mode(intent.action, intent.mode);
    lemma_first_covering_rule_covers(cfg.routing@, intent.entity@, intent.action, mode);
    let rule = first_covering_rule(cfg.routing@, intent.entity@, intent.action, mode)->0;
    lemma_first_binding_to_targets(cfg.spec_bindings_for(intent.entity@), rule.target@);
}

/// The rule `first_covering_rule` picks covers the tuple, and no earlier
/// rule does.
pub proof fn lemma_first_covering_rule_covers(rules: Seq<RoutingRule>, entity: Seq<char>, action: Action, mode: Option<Mode>)
    ensures
        first_covering_rule(rules, entity, action, mode) matches Some(rule) ==> rule.when.spec_covers(entity, action, mode),
        first_covering_rule(rules, entity, action, mode) is None ==> forall|i: int|
            0 <= i < rules.len() ==> !(#[trigger] rules[i]).when.spec_covers(entity, action, mode),
    decreases rules.len(),
{
    if rules.len() > 0 {
        lemma_first_covering_rule_covers(rules.drop_first(), entity, action, mode);
        if !rules[0].when.spec_covers(entity, action, mode) {
            assert forall|i: int| 0 < i < rules.len() implies rules[i] == rules.drop_first()[i - 1] by {}
        }
    }
}

proof fn lemma_first_binding_to_targets(bindings: Seq<EntityBinding>, source: Seq<char>)
    ensures
        first_binding_to(bindings, source) matches Some(b) ==> b.source@ == source,
    decreases bindings.len(),
{
    if bindings.len() > 0 {
        lemma_first_binding_to_targets(bindings.drop_first(), source);
    }
}

} // verus!

//! The decisions of the intent pipeline: what an intent is answered with
//! at each step, from validation and routing through the connector's
//! result to the structured error taxonomy.
//!
//! The pipeline itself (loading the live configuration, finding the
//! connector instance, awaiting its execution, recording metrics) runs
//! around these functions.

use vstd::prelude::*;
use vstd::string::StringExecFns;

use crate::artifact::{row_insert, Artifact, ArtifactRow};
use crate::compiler::{compile_error_text, validate, validate_failure};
use crate::config::compiled::CompiledConfig;
use crate::connector::errors::{connector_error_text, ConnectorError, ConnectorErrorView};
use crate::connector::outcome::AppendOutcome;
use crate::access::{any_name_eq, names_contain};
use crate::intent::{action_name, spec_action_name, spec_effective_mode, Action, Intent};
use crate::json::{lemma_json_view_top, json_view, JsonNumber, JsonNumberView, JsonValue, JsonView};
use crate::protocol::{ErrorCode, ErrorResponse, ResponseEnvelope};
use crate::router::{
    first_binding_to, first_covering_rule, route, route_failure, router_error_text, RoutedIntent, RouterError,
    RouterErrorView,
};
use crate::text::{debug_quoted, quote_debug};

verus! {

/// The response is the error `code` with `message` and no retry hint.
pub open spec fn is_error_response(r: ResponseEnvelope, code: ErrorCode, message: Seq<char>) -> bool {
    r matches ResponseEnvelope::Error(e) && e.code == code && e.message@ == message && e.retry_after_ms is None
}

/// The error code a routing failure is answered with.
pub open spec fn router_error_code(e: RouterErrorView) -> ErrorCode {
    match e {
        RouterErrorView::UnknownEntity(_) => ErrorCode::UnknownEntity,
        RouterErrorView::NoRoute(..) => ErrorCode::NoBinding,
        RouterErrorView::NoBindingForRoute(..) => ErrorCode::NoBinding,
        RouterErrorView::ActionNotSupported(..) => ErrorCode::Forbidden,
    }
}

/// Why an intent is refused before it reaches a connector, if it is: an
/// unknown entity, a shape that does not validate against the entity, or
/// a routing failure; with the code and message it is answered with.
pub open spec fn plan_failure(intent: Intent, cfg: CompiledConfig) -> Option<(ErrorCode, Seq<char>)> {
    if !cfg.entities.has_key(intent.entity@) {
        Some((ErrorCode::UnknownEntity, "unknown entity "@ + debug_quoted(intent.entity@)))
    } else {
        match validate_failure(intent, cfg.entities.spec_get(intent.entity@)->0) {
            Some(ce) => Some((ErrorCode::InvalidIntent, compile_error_text(ce))),
            None => match route_failure(intent, cfg) {
                Some(re) => Some((router_error_code(re), router_error_text(re))),
                None => None,
            },
        }
    }
}

fn error_response(code: ErrorCode, message: String) -> (r: ResponseEnvelope)
    ensures
        is_error_response(r, code, message@),
{
    ResponseEnvelope::Error(ErrorResponse::new(code, message))
}

/// The source a valid intent is routed to: the target of the first rule
/// covering it.
pub open spec fn planned_source(intent: Intent, cfg: CompiledConfig) -> Seq<char> {
    let mode = spec_effective_mode(intent.action, intent.mode);
    first_covering_rule(cfg.routing@, intent.entity@, intent.action, mode)->0.target@
}

/// `ri` is what routing a valid intent gives: its entity, the first of the
/// entity's bindings to the planned source, and that source.
pub open spec fn routed_as_planned(ri: RoutedIntent, intent: Intent, cfg: CompiledConfig) -> bool {
    let source = planned_source(intent, cfg);
    let b = first_binding_to(cfg.spec_bindings_for(intent.entity@), source)->0;
    let e = cfg.entities.spec_get(intent.entity@)->0;
    &&& ri.entity.name == e.name
    &&& ri.entity.fields@ == e.fields@
    &&& ri.binding@ == b@
    &&& ri.source_name@ == source
}

/// Validates and routes an intent against the live configuration: the
/// routed entity, binding and source, or the error response the intent is
/// answered with.
pub fn plan_dispatch(cfg: &CompiledConfig, intent: &Intent) -> (r: Result<RoutedIntent, ResponseEnvelope>)
    ensures
        match plan_failure(*intent, *cfg) {
            Some((code, message)) => r matches Err(env) && is_error_response(env, code, message),
            None => r matches Ok(ri) && routed_as_planned(ri, *intent, *cfg),
        },
{
    let entity = match cfg.entity(intent.entity.as_str()) {
        Some(e) => e,
        None => {
            let mut m = String::from_str("unknown entity ");
            m.append(quote_debug(intent.entity.as_str()).as_str());
            return Err(error_response(ErrorCode::UnknownEntity, m));
        },
    };
    match validate(intent, entity) {
        Ok(()) => {},
        Err(e) => return Err(error_response(ErrorCode::InvalidIntent, e.message())),
    }
    match route(intent, cfg) {
        Ok(ri) => Ok(ri),
        Err(e) => {
            let code = match &e {
                RouterError::UnknownEntity(_) => ErrorCode::UnknownEntity,
                RouterError::NoRoute { .. } => ErrorCode::NoBinding,
                RouterError::NoBindingForRoute { .. } => ErrorCode::NoBinding,
                RouterError::ActionNotSupported { .. } => ErrorCode::Forbidden,
            };
            Err(error_response(code, e.message()))
        },
    }
}

/// The message for a source without a connector instance.
pub open spec fn missing_connector_text(source: Seq<char>) -> Seq<char> {
    "source "@ + debug_quoted(source)
        + " has no connector instance (build feature missing or factory build failed)"@
}

/// The answer to an intent routed to a source with no connector instance:
/// a configuration error.
pub fn missing_connector_response(source_name: &str) -> (r: ResponseEnvelope)
    ensures
        is_error_response(r, ErrorCode::ConfigError, missing_connector_text(source_name@)),
{
    let mut m = String::from_str("source ");
    m.append(quote_debug(source_name).as_str());
    m.append(" has no connector instance (build feature missing or factory build failed)");
    error_response(ErrorCode::ConfigError, m)
}

/// The code and message a connector failure is answered with.
pub open spec fn connector_failure(e: ConnectorErrorView) -> (ErrorCode, Seq<char>) {
    match e {
        ConnectorErrorView::Connect(m) => (ErrorCode::ConnectorError, m),
        ConnectorErrorView::Unhealthy(m) => (ErrorCode::ConnectorError, m),
        ConnectorErrorView::InvalidIntent(m) => (ErrorCode::InvalidIntent, m),
        ConnectorErrorView::EngineRefusal(m) => (ErrorCode::Forbidden, "engine refused operation: "@ + m),
        ConnectorErrorView::TypeMismatch(..) => (ErrorCode::InvalidIntent, connector_error_text(e)),
        ConnectorErrorView::Backend(m) => (ErrorCode::ConnectorError, m),
        ConnectorErrorView::Unsupported(a) => (ErrorCode::Forbidden, "connector does not support "@ + spec_action_name(a)),
    }
}

/// Translates a connector failure into the error response taxonomy: an
/// engine refusal or an unsupported action is forbidden, a bad intent or a
/// type mismatch is an invalid intent, anything else a connector error.
pub fn translate_connector_error(e: ConnectorError) -> (r: ResponseEnvelope)
    ensures
        is_error_response(r, connector_failure(e@).0, connector_failure(e@).1),
{
    let text = e.message();
    match e {
        ConnectorError::Connect(m) => error_response(ErrorCode::ConnectorError, m),
        ConnectorError::Unhealthy(m) => error_response(ErrorCode::ConnectorError, m),
        ConnectorError::InvalidIntent(m) => error_response(ErrorCode::InvalidIntent, m),
        ConnectorError::EngineRefusal(m) => {
            let mut s = String::from_str("engine refused operation: ");
            s.append(m.as_str());
            error_response(ErrorCode::Forbidden, s)
        },
        ConnectorError::TypeMismatch { .. } => error_response(ErrorCode::InvalidIntent, text),
        ConnectorError::Backend(m) => error_response(ErrorCode::ConnectorError, m),
        ConnectorError::Unsupported(a) => {
            let mut s = String::from_str("connector does not support ");
            s.append(action_name(a));
            error_response(ErrorCode::Forbidden, s)
        },
    }
}

/// The answer to a read: the artifact, or the translated failure.
pub fn read_response(result: Result<Artifact, ConnectorError>) -> (r: ResponseEnvelope)
    ensures
        match result {
            Ok(a) => r == ResponseEnvelope::Success(a),
            Err(e) => is_error_response(r, connector_failure(e@).0, connector_failure(e@).1),
        },
{
    match result {
        Ok(a) => ResponseEnvelope::Success(a),
        Err(e) => translate_connector_error(e),
    }
}

/// The single-row artifact an append answers with: `rows_inserted`.
pub open spec fn append_row_view(rows_inserted: u64) -> Seq<(Seq<char>, JsonView)> {
    seq![("rows_inserted"@, JsonView::Number(JsonNumberView::PosInt(rows_inserted)))]
}

/// The answer to an append: a one-row artifact carrying how many rows were
/// inserted (so the wire shape stays uniform), or the translated failure.
pub fn append_response(kind: &str, result: Result<AppendOutcome, ConnectorError>) -> (r: ResponseEnvelope)
    ensures
        match result {
            Ok(o) => r matches ResponseEnvelope::Success(a) && a.rows@.len() == 1 && a.rows@[0]@ == append_row_view(
                o.rows_inserted,
            ) && a.source_kind@ == kind@ && a.source_id is None,
            Err(e) => is_error_response(r, connector_failure(e@).0, connector_failure(e@).1),
        },
{
    match result {
        Ok(o) => {
            let mut row = ArtifactRow::new();
            let v = JsonValue::Number(JsonNumber::PosInt(o.rows_inserted));
            proof {
                lemma_json_view_top(v);
            }
            row.insert("rows_inserted", v);
            proof {
                assert(row@ =~= append_row_view(o.rows_inserted));
            }
            let mut rows: Vec<ArtifactRow> = Vec::new();
            rows.push(row);
            ResponseEnvelope::Success(Artifact { rows, source_kind: String::from_str(kind), source_id: None })
        },
        Err(e) => translate_connector_error(e),
    }
}

/// The outcome label metrics carry for a response.
pub fn outcome_label(r: &ResponseEnvelope) -> (l: &'static str)
    ensures
        r is Success ==> l@ == "ok"@,
        r is Error ==> l@ == "error"@,
{
    if r.is_success() {
        "ok"
    } else {
        "error"
    }
}

/// The code label error metrics carry: the code's variant name, lowercased.
pub open spec fn spec_code_label(c: ErrorCode) -> Seq<char> {
    match c {
        ErrorCode::Unauthorized => "unauthorized"@,
        ErrorCode::Forbidden => "forbidden"@,
        ErrorCode::InvalidIntent => "invalidintent"@,
        ErrorCode::UnknownEntity => "unknownentity"@,
        ErrorCode::NoBinding => "nobinding"@,
        ErrorCode::OverBudget => "overbudget"@,
        ErrorCode::CircuitOpen => "circuitopen"@,
        ErrorCode::RateLimited => "ratelimited"@,
        ErrorCode::ConnectorError => "connectorerror"@,
        ErrorCode::ConfigError => "configerror"@,
        ErrorCode::Internal => "internal"@,
    }
}

/// The code label of an error code.
pub fn code_label(c: ErrorCode) -> (r: &'static str)
    ensures
        r@ == spec_code_label(c),
{
    match c {
        ErrorCode::Unauthorized => "unauthorized",
        ErrorCode::Forbidden => "forbidden",
        ErrorCode::InvalidIntent => "invalidintent",
        ErrorCode::UnknownEntity => "unknownentity",
        ErrorCode::NoBinding => "nobinding",
        ErrorCode::OverBudget => "overbudget",
        ErrorCode::CircuitOpen => "circuitopen",
        ErrorCode::RateLimited => "ratelimited",
        ErrorCode::ConnectorError => "connectorerror",
        ErrorCode::ConfigError => "configerror",
        ErrorCode::Internal => "internal",
    }
}

/// What the pipeline does next with an intent.
pub enum DispatchStep {
    /// Answer the intent now, without calling a connector.
    Answer(ResponseEnvelope),
    /// Run the read on the routed source's connector, once, and answer
    /// with `read_response` of its result.
    ExecuteRead(RoutedIntent),
    /// Run the append on the routed source's connector, once, and answer
    /// with `append_response` of its result.
    ExecuteAppend(RoutedIntent),
}

/// The step after validation and routing, given the names of the sources
/// that have a connector instance: a refused intent is answered with its
/// error; an intent routed to a source without a connector with the
/// configuration error; otherwise the routed read or append is executed,
/// exactly one of the two, as the action says.
pub fn dispatch_step(cfg: &CompiledConfig, intent: &Intent, connected: &Vec<String>) -> (r: DispatchStep)
    ensures
        match plan_failure(*intent, *cfg) {
            Some((code, message)) => r matches DispatchStep::Answer(env) && is_error_response(env, code, message),
            None => if !names_contain(connected@, planned_source(*intent, *cfg)) {
                r matches DispatchStep::Answer(env) && is_error_response(
                    env,
                    ErrorCode::ConfigError,
                    missing_connector_text(planned_source(*intent, *cfg)),
                )
            } else if intent.action == Action::Read {
                r matches DispatchStep::ExecuteRead(ri) && routed_as_planned(ri, *intent, *cfg)
            } else {
                r matches DispatchStep::ExecuteAppend(ri) && routed_as_planned(ri, *intent, *cfg)
            },
        },
{
    let ri = match plan_dispatch(cfg, intent) {
        Ok(ri) => ri,
        Err(env) => return DispatchStep::Answer(env),
    };
    if !any_name_eq(connected, ri.source_name.as_str()) {
        return DispatchStep::Answer(missing_connector_response(ri.source_name.as_str()));
    }
    match intent.action {
        Action::Read => DispatchStep::ExecuteRead(ri),
        Action::Append => DispatchStep::ExecuteAppend(ri),
    }
}

} // verus!

//! Operator-tunable policy for the SQL engine, and its errors.
//!
//! Every knob has a safe default: an operator can omit the whole block and
//! still get a deny-DDL/DML posture, modest limits, projection and
//! predicate pushdown, and PII hidden from the schema listing.

use vstd::prelude::*;
use vstd::string::StringExecFns;

use crate::text::{debug_quoted, decimal_text, push_decimal, quote_debug};

verus! {

/// Statement classes an incoming SQL statement is classified into; the
/// denylist is matched against these.
#[derive(Debug, Clone, Copy, PartialEq, Eq, Hash, Structural)]
pub enum StatementClass {
    /// `CREATE`, `ALTER`, `DROP` of any object.
    Ddl,
    /// `DELETE ...`
    Delete,
    /// `UPDATE ...`
    Update,
    /// `TRUNCATE ...`
    Truncate,
    /// `MERGE ...` / `UPSERT ...`.
    Merge,
    /// `REPLACE INTO ...`.
    Replace,
    /// `GRANT ...`
    Grant,
    /// `REVOKE ...`
    Revoke,
    /// `SET ...`.
    SetSession,
}

/// The statement classes denied by default: everything that changes schema
/// or rows out of band, grants, and session settings.
pub open spec fn default_denied() -> Seq<StatementClass> {
    seq![
        StatementClass::Ddl,
        StatementClass::Delete,
        StatementClass::Update,
        StatementClass::Truncate,
        StatementClass::Merge,
        StatementClass::Replace,
        StatementClass::Grant,
        StatementClass::Revoke,
        StatementClass::SetSession,
    ]
}

/// The default statement denylist.
pub fn default_deny_statements() -> (r: Vec<StatementClass>)
    ensures
        r@ == default_denied(),
{
    let mut v: Vec<StatementClass> = Vec::new();
    v.push(StatementClass::Ddl);
    v.push(StatementClass::Delete);
    v.push(StatementClass::Update);
    v.push(StatementClass::Truncate);
    v.push(StatementClass::Merge);
    v.push(StatementClass::Replace);
    v.push(StatementClass::Grant);
    v.push(StatementClass::Revoke);
    v.push(StatementClass::SetSession);
    assert(v@ =~= default_denied());
    v
}

/// The value of the switches that are on unless configured off.
pub fn default_true() -> (r: bool)
    ensures
        r,
{
    true
}

/// Statement-class denylist and raw-SQL regex denylist.
#[derive(Debug)]
pub struct PolicyConfig {
    /// Statement classes refused at parse time.
    pub deny_statements: Vec<StatementClass>,
    /// Raw-SQL regexes that refuse a statement before it is parsed.
    pub deny_regex: Vec<String>,
    /// Refuse statements without an explicit reference to a known table.
    pub require_explicit_table_refs: bool,
}

impl Default for PolicyConfig {
    fn default() -> (r: Self)
        ensures
            r.deny_statements@ == default_denied(),
            r.deny_regex@.len() == 0,
            !r.require_explicit_table_refs,
    {
        PolicyConfig {
            deny_statements: default_deny_statements(),
            deny_regex: Vec::new(),
            require_explicit_table_refs: false,
        }
    }
}

/// Per-query resource caps.
#[derive(Debug, Clone, Copy, PartialEq, Eq, Structural)]
pub struct LimitsConfig {
    /// Wall-clock seconds before the query is cancelled.
    pub max_query_seconds: u32,
    /// Hard cap on rows returned to the agent.
    pub max_rows_returned: u64,
    /// Memory budget for in-process execution.
    pub max_memory_mb: u32,
}

/// The default query timeout, in seconds.
pub fn default_max_query_seconds() -> (r: u32)
    ensures
        r == 30,
{
    30
}

/// The default row cap.
pub fn default_max_rows_returned() -> (r: u64)
    ensures
        r == 10_000,
{
    10_000
}

/// The default memory budget, in MiB.
pub fn default_max_memory_mb() -> (r: u32)
    ensures
        r == 512,
{
    512
}

impl Default for LimitsConfig {
    fn default() -> (r: Self)
        ensures
            r.max_query_seconds == 30,
            r.max_rows_returned == 10_000,
            r.max_memory_mb == 512,
    {
        LimitsConfig {
            max_query_seconds: default_max_query_seconds(),
            max_rows_returned: default_max_rows_returned(),
            max_memory_mb: default_max_memory_mb(),
        }
    }
}

/// The most predicate pushdown the planner may request.
#[derive(Debug, Clone, Copy, PartialEq, Eq, Hash, Structural)]
pub enum PushdownPredicate {
    /// Never push predicates; filter in process.
    NoPushdown,
    /// Inexact pushdown (a post-filter is required).
    Inexact,
    /// Exact pushdown when the connector advertises it (the default).
    Exact,
}

impl Default for PushdownPredicate {
    fn default() -> (r: Self)
        ensures
            r == PushdownPredicate::Exact,
    {
        PushdownPredicate::Exact
    }
}

/// Pushdown caps.
#[derive(Debug, Clone, Copy, PartialEq, Eq, Structural)]
pub struct PushdownConfig {
    /// Push projections into the connector.
    pub projection: bool,
    /// The predicate pushdown ceiling.
    pub predicate: PushdownPredicate,
}

impl Default for PushdownConfig {
    fn default() -> (r: Self)
        ensures
            r.projection,
            r.predicate == PushdownPredicate::Exact,
    {
        PushdownConfig { projection: default_true(), predicate: PushdownPredicate::default() }
    }
}

/// What the schema listing exposes.
#[derive(Debug, Clone, Copy, PartialEq, Eq, Structural)]
pub struct SchemaExposureConfig {
    /// Include fields flagged as PII (off by default).
    pub include_pii_fields: bool,
    /// Include internal tables (off by default).
    pub include_internal_tables: bool,
    /// Include lineage hints (on by default).
    pub include_lineage_hints: bool,
}

impl Default for SchemaExposureConfig {
    fn default() -> (r: Self)
        ensures
            !r.include_pii_fields,
            !r.include_internal_tables,
            r.include_lineage_hints,
    {
        SchemaExposureConfig {
            include_pii_fields: false,
            include_internal_tables: false,
            include_lineage_hints: default_true(),
        }
    }
}

/// Optimizer toggles.
#[derive(Debug, Clone, Copy, PartialEq, Eq, Structural)]
pub struct OptimizerConfig {
    /// Allow pruning passes.
    pub enable_pruning: bool,
    /// Allow join-order rewrites.
    pub enable_join_reordering: bool,
}

impl Default for OptimizerConfig {
    fn default() -> (r: Self)
        ensures
            r.enable_pruning,
            r.enable_join_reordering,
    {
        OptimizerConfig { enable_pruning: default_true(), enable_join_reordering: default_true() }
    }
}

/// The engine block of the configuration.
#[derive(Debug)]
pub struct EngineConfig {
    /// Statements and patterns refused.
    pub policy: PolicyConfig,
    /// Per-query caps.
    pub limits: LimitsConfig,
    /// Pushdown ceilings.
    pub pushdown: PushdownConfig,
    /// Schema listing exposure.
    pub schema_exposure: SchemaExposureConfig,
    /// Optimizer toggles.
    pub optimizer: OptimizerConfig,
}

impl Default for EngineConfig {
    fn default() -> (r: Self)
        ensures
            r.policy.deny_statements@ == default_denied(),
            r.policy.deny_regex@.len() == 0,
            !r.policy.require_explicit_table_refs,
            r.limits == (LimitsConfig { max_query_seconds: 30, max_rows_returned: 10_000, max_memory_mb: 512 }),
            r.pushdown == (PushdownConfig { projection: true, predicate: PushdownPredicate::Exact }),
            r.schema_exposure == (SchemaExposureConfig {
                include_pii_fields: false,
                include_internal_tables: false,
                include_lineage_hints: true,
            }),
            r.optimizer == (OptimizerConfig { enable_pruning: true, enable_join_reordering: true }),
    {
        EngineConfig {
            policy: PolicyConfig::default(),
            limits: LimitsConfig::default(),
            pushdown: PushdownConfig::default(),
            schema_exposure: SchemaExposureConfig::default(),
            optimizer: OptimizerConfig::default(),
        }
    }
}

/// The `Debug` name of a statement class.
pub open spec fn spec_statement_class_name(c: StatementClass) -> Seq<char> {
    match c {
        StatementClass::Ddl => "Ddl"@,
        StatementClass::Delete => "Delete"@,
        StatementClass::Update => "Update"@,
        StatementClass::Truncate => "Truncate"@,
        StatementClass::Merge => "Merge"@,
        StatementClass::Replace => "Replace"@,
        StatementClass::Grant => "Grant"@,
        StatementClass::Revoke => "Revoke"@,
        StatementClass::SetSession => "Set"@,
    }
}

/// The `Debug` name of a statement class.
pub fn statement_class_name(c: StatementClass) -> (r: &'static str)
    ensures
        r@ == spec_statement_class_name(c),
{
    match c {
        StatementClass::Ddl => "Ddl",
        StatementClass::Delete => "Delete",
        StatementClass::Update => "Update",
        StatementClass::Truncate => "Truncate",
        StatementClass::Merge => "Merge",
        StatementClass::Replace => "Replace",
        StatementClass::Grant => "Grant",
        StatementClass::Revoke => "Revoke",
        StatementClass::SetSession => "Set",
    }
}

/// Errors of the SQL engine.
#[derive(Debug)]
pub enum EngineError {
    /// The statement does not parse.
    Parse(String),
    /// The statement's class is denied by policy.
    StatementDenied {
        /// The class.
        class: StatementClass,
    },
    /// A deny regex matched the raw SQL.
    DenyRegexMatched {
        /// Position of the pattern in the denylist.
        index: usize,
        /// The pattern.
        pattern: String,
    },
    /// The statement touches a table outside the binding's scope.
    TableOutsideAccessScope {
        /// The table.
        table: String,
    },
    /// Building the plan failed.
    PlanBuild(String),
    /// Executing the plan failed.
    Execution(String),
    /// No table provider is registered for the source.
    UnknownSource(String),
}

/// The text an engine error displays.
pub open spec fn engine_error_text(e: EngineError) -> Seq<char> {
    match e {
        EngineError::Parse(m) => "SQL parse error: "@ + m@,
        EngineError::StatementDenied { class } => "statement "@ + spec_statement_class_name(class)
            + " is denied by operator policy"@,
        EngineError::DenyRegexMatched { index, pattern } => "statement rejected by deny-regex pattern #"@
            + decimal_text(index as nat) + ": "@ + pattern@,
        EngineError::TableOutsideAccessScope { table } => "table "@ + debug_quoted(table@)
            + " is outside the binding's access scope"@,
        EngineError::PlanBuild(m) => "plan build failed: "@ + m@,
        EngineError::Execution(m) => "execution failed: "@ + m@,
        EngineError::UnknownSource(s) => "no table provider registered for source "@ + debug_quoted(s@),
    }
}

impl EngineError {
    /// The human-readable message of this error.
    pub fn message(&self) -> (r: String)
        ensures
            r@ == engine_error_text(*self),
    {
        match self {
            EngineError::Parse(m) => {
                let mut s = String::from_str("SQL parse error: ");
                s.append(m.as_str());
                s
            },
            EngineError::StatementDenied { class } => {
                let mut s = String::from_str("statement ");
                s.append(statement_class_name(*class));
                s.append(" is denied by operator policy");
                s
            },
            EngineError::DenyRegexMatched { index, pattern } => {
                let mut s = String::from_str("statement rejected by deny-regex pattern #");
                push_decimal(&mut s, *index as u64);
                s.append(": ");
                s.append(pattern.as_str());
                s
            },
            EngineError::TableOutsideAccessScope { table } => {
                let mut s = String::from_str("table ");
                s.append(quote_debug(table.as_str()).as_str());
                s.append(" is outside the binding's access scope");
                s
            },
            EngineError::PlanBuild(m) => {
                let mut s = String::from_str("plan build failed: ");
                s.append(m.as_str());
                s
            },
            EngineError::Execution(m) => {
                let mut s = String::from_str("execution failed: ");
                s.append(m.as_str());
                s
            },
            EngineError::UnknownSource(m) => {
                let mut s = String::from_str("no table provider registered for source ");
                s.append(quote_debug(m.as_str()).as_str());
                s
            },
        }
    }
}

} // verus!

use eventhorizon::engine::{default_deny_statements, EngineConfig, EngineError, PushdownPredicate, StatementClass};

#[test]
fn empty_config_has_safe_defaults() {
    let cfg = EngineConfig::default();
    assert!(cfg.policy.deny_statements.contains(&StatementClass::Ddl));
    assert!(cfg.policy.deny_statements.contains(&StatementClass::Delete));
    assert!(cfg.policy.deny_statements.contains(&StatementClass::Update));
    assert!(cfg.policy.deny_statements.contains(&StatementClass::Merge));
    assert_eq!(cfg.policy.deny_regex.len(), 0);
    assert!(!cfg.policy.require_explicit_table_refs);
    assert_eq!(cfg.limits.max_query_seconds, 30);
    assert_eq!(cfg.limits.max_rows_returned, 10_000);
    assert_eq!(cfg.limits.max_memory_mb, 512);
    assert!(cfg.pushdown.projection);
    assert!(matches!(cfg.pushdown.predicate, PushdownPredicate::Exact));
    assert!(!cfg.schema_exposure.include_pii_fields);
    assert!(!cfg.schema_exposure.include_internal_tables);
    assert!(cfg.schema_exposure.include_lineage_hints);
    assert!(cfg.optimizer.enable_pruning);
    assert!(cfg.optimizer.enable_join_reordering);
}

#[test]
fn default_denylist_is_the_nine_mutating_classes() {
    assert_eq!(
        default_deny_statements(),
        vec![
            StatementClass::Ddl,
            StatementClass::Delete,
            StatementClass::Update,
            StatementClass::Truncate,
            StatementClass::Merge,
            StatementClass::Replace,
            StatementClass::Grant,
            StatementClass::Revoke,
            StatementClass::SetSession,
        ]
    );
}

#[test]
fn engine_error_messages() {
    assert_eq!(EngineError::StatementDenied { class: StatementClass::Ddl }.message(), "statement Ddl is denied by operator policy");
    assert_eq!(
        EngineError::DenyRegexMatched { index: 2, pattern: "(?i)drop".into() }.message(),
        "statement rejected by deny-regex pattern #2: (?i)drop"
    );
    assert_eq!(
        EngineError::TableOutsideAccessScope { table: "secrets".into() }.message(),
        "table \"secrets\" is outside the binding's access scope"
    );
    assert_eq!(EngineError::UnknownSource("pg".into()).message(), "no table provider registered for source \"pg\"");
}

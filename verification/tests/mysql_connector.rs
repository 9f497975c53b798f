use eventhorizon::access::SourceAccessScope;
use eventhorizon::config::secret::SecretRef;
use eventhorizon::connector::caps::PushdownLevel;
use eventhorizon::connector::errors::ConnectorError;
use eventhorizon::connector::registry::{ConnectorFactory, ConnectorRegistry};
use eventhorizon::entity::FieldType;
use eventhorizon::json::JsonValue;
use eventhorizon::mysql::arrow_schema::{ArrayBuilderHandle, ArrowCell, ArrowField, ArrowType, MysqlColumn};
use eventhorizon::mysql::catalog::group_catalog;
use eventhorizon::mysql::connector::{capabilities, map_exec_error, resolve_password, rows_to_artifact};
use eventhorizon::mysql::introspection::{column_from_row, schemas_to_list, scope_kind, table_from_columns, MysqlTable};
use eventhorizon::mysql::query::ProjectedColumn;
use eventhorizon::mysql::table_provider::{build_select_sql, project_columns, rows_to_columns, ScanError};
use eventhorizon::mysql::types::{Cell, Fetched};
use eventhorizon::mysql::{register, MysqlFactory, KIND};

fn col(name: &str, data_type: &str) -> MysqlColumn {
    MysqlColumn {
        name: name.into(),
        data_type: data_type.into(),
        column_type: data_type.into(),
        nullable: true,
        decimal_precision: None,
        decimal_scale: None,
    }
}

#[test]
fn capabilities_match_phase1_intent() {
    let caps = capabilities();
    assert!(caps.supports_read);
    assert!(caps.supports_append);
    assert_eq!(caps.predicate_pushdown, PushdownLevel::Exact);
    assert!(caps.projection_pushdown);
    assert!(!caps.streaming);
}

#[test]
fn map_exec_error_classifies_denied_as_engine_refusal() {
    let denied = "error with configuration: Access denied for user 'eh_service'@'%' to database 'eh_demo'".to_string();
    match map_exec_error(denied) {
        ConnectorError::EngineRefusal(_) => {}
        other => panic!("expected EngineRefusal, got {other:?}"),
    }
}

#[test]
fn map_exec_error_classifies_other_as_backend() {
    match map_exec_error("error with configuration: connection lost mid-statement".to_string()) {
        ConnectorError::Backend(m) => assert_eq!(m, "error with configuration: connection lost mid-statement"),
        o => panic!("expected Backend, got {o:?}"),
    }
}

#[test]
fn password_resolution_failures_are_connect_errors() {
    let r = SecretRef::Env("PW".to_string());
    match resolve_password(&r, None) {
        Err(ConnectorError::Connect(m)) => assert!(m.starts_with("secret resolution failed: required environment variable \"PW\"")),
        _ => panic!("expected Connect"),
    }
    assert!(matches!(resolve_password(&r, Some(String::new())), Err(ConnectorError::Connect(_))));
    assert_eq!(resolve_password(&r, Some("pw".to_string())).unwrap().expose(), "pw");
}

#[test]
fn rows_decode_into_artifact_rows_keyed_by_logical_name() {
    let projection = vec![
        ProjectedColumn { logical: "id".into(), physical: "customer_id".into(), field_type: FieldType::BigInt },
        ProjectedColumn { logical: "email".into(), physical: "contact_email".into(), field_type: FieldType::String },
    ];
    let rows = vec![
        vec![Fetched::Value(Cell::BigInt(1)), Fetched::Value(Cell::Text("a@b.c".into()))],
        vec![Fetched::Value(Cell::BigInt(2)), Fetched::Null],
    ];
    let a = rows_to_artifact("mysql", &projection, rows).unwrap();
    assert_eq!(a.len(), 2);
    assert_eq!(a.source_kind, "mysql");
    assert!(a.source_id.is_none());
    assert!(matches!(a.rows[0].get("email"), Some(JsonValue::String(t)) if t == "a@b.c"));
    assert!(matches!(a.rows[1].get("email"), Some(JsonValue::Null)));
    let bad = vec![vec![Fetched::Failed, Fetched::Null]];
    let err = rows_to_artifact("mysql", &projection, bad).unwrap_err();
    assert_eq!(err.message(), "type mismatch on field `id`: expected bigint, got bigint-decode");
}

#[test]
fn kind_is_mysql() {
    assert_eq!(MysqlFactory.kind(), "mysql");
    assert_eq!(MysqlFactory.kind_name(), "mysql");
    assert_eq!(KIND, "mysql");
}

#[test]
fn register_adds_to_empty_registry() {
    let mut r = ConnectorRegistry::new();
    register(&mut r, MysqlFactory).unwrap();
    assert_eq!(r.known_kinds(), vec!["mysql".to_string()]);
    assert!(r.factory("mysql").is_some());
}

#[test]
fn duplicate_register_is_rejected() {
    let mut r = ConnectorRegistry::new();
    register(&mut r, MysqlFactory).unwrap();
    let err = register(&mut r, MysqlFactory).unwrap_err();
    assert!(matches!(err, ConnectorError::Connect(_)));
}

#[test]
fn introspection_decisions() {
    assert_eq!(scope_kind(&SourceAccessScope::WholeSchema { schema: "s".into() }), "whole_schema");
    assert_eq!(schemas_to_list(&SourceAccessScope::WholeDatabase { databases: vec!["a".into(), "b".into()] }), vec!["a".to_string(), "b".to_string()]);
    assert!(schemas_to_list(&SourceAccessScope::Table { schema: "s".into(), table: "t".into() }).is_empty());
    let c = column_from_row(Ok("ID".into()), Ok("VARCHAR".into()), Ok("VARCHAR(36)".into()), Ok("yes".into()), Some(300), Some(2)).unwrap();
    assert_eq!(c.data_type, "varchar");
    assert_eq!(c.column_type, "varchar(36)");
    assert!(c.nullable);
    assert_eq!(c.decimal_precision, None);
    assert_eq!(c.decimal_scale, Some(2));
    let err = column_from_row(Ok("x".into()), Err("gone".into()), Ok("".into()), Ok("".into()), None, None).unwrap_err();
    assert_eq!(err.message(), "backend error: data_type read for x: gone");
    let err = table_from_columns("eh_demo".into(), "ghost".into(), vec![]).unwrap_err();
    assert_eq!(err.message(), "backend error: table eh_demo.ghost has no columns visible to eh_service (likely missing GRANTs or table does not exist)");
    let t = table_from_columns("eh_demo".into(), "t".into(), vec![col("a", "int"), col("b", "text")]).unwrap();
    assert_eq!(t.arrow_fields.len(), 2);
    assert_eq!(t.arrow_fields[1].data_type, ArrowType::Utf8);
    assert!(table_from_columns("eh_demo".into(), "t".into(), vec![col("g", "geography")]).is_err());
}

#[test]
fn scan_sql_and_projection() {
    let cols = vec![col("id", "int"), col("email", "text")];
    assert_eq!(build_select_sql("eh_demo", "customers", &cols, Some(10)).unwrap(), "SELECT id, email FROM eh_demo.customers LIMIT 10");
    assert_eq!(build_select_sql("eh_demo", "customers", &cols, None).unwrap(), "SELECT id, email FROM eh_demo.customers");
    assert!(matches!(build_select_sql("eh_demo", "customers", &vec![], None), Err(ScanError::Internal(_))));
    assert!(matches!(build_select_sql("eh demo", "customers", &cols, None), Err(ScanError::External(_))));
    let picked = project_columns(&cols, Some(&vec![1, 0]));
    assert_eq!(picked[0].name, "email");
    assert_eq!(picked[1].name, "id");
    assert_eq!(project_columns(&cols, None).len(), 2);
}

#[test]
fn scan_rows_fill_column_buffers() {
    let columns = vec![col("id", "int"), col("name", "text")];
    let fields = vec![
        ArrowField { name: "id".into(), data_type: ArrowType::Int32, nullable: true },
        ArrowField { name: "name".into(), data_type: ArrowType::Utf8, nullable: true },
    ];
    let rows = vec![
        vec![Ok(Some(ArrowCell::I32(1))), Ok(Some(ArrowCell::Text("a".into())))],
        vec![Ok(None), Ok(Some(ArrowCell::Text("b".into())))],
    ];
    let out = rows_to_columns(&fields, &columns, rows).unwrap();
    assert!(matches!(&out[0], ArrayBuilderHandle::Int32(v) if v == &vec![Some(1), None]));
    assert!(matches!(&out[1], ArrayBuilderHandle::Utf8(v) if v == &vec![Some("a".to_string()), Some("b".to_string())]));
    let err = rows_to_columns(&fields, &columns, vec![vec![Ok(None), Err("lost".into())]]).unwrap_err();
    assert_eq!(err.message(), "backend error: name: lost");
}

fn table(schema: &str, name: &str) -> MysqlTable {
    MysqlTable { schema_name: schema.into(), table_name: name.into(), columns: vec![], arrow_fields: vec![] }
}

#[test]
fn catalog_groups_tables_by_schema() {
    let scope = SourceAccessScope::WholeDatabase { databases: vec!["a".into(), "b".into()] };
    let groups = group_catalog(&scope, vec![table("b", "t1"), table("a", "t2"), table("b", "t3")]).unwrap();
    assert_eq!(groups.len(), 2);
    let b: Vec<&str> = groups.get("b").unwrap().iter().map(|t| t.table_name.as_str()).collect();
    assert_eq!(b, vec!["t1", "t3"]);
    assert_eq!(groups.get("a").unwrap().len(), 1);
    let err = group_catalog(&SourceAccessScope::WholeSchema { schema: "x".into() }, vec![]).unwrap_err();
    assert_eq!(
        err.message(),
        "backend error: MySQL source produced an empty catalog for scope WholeSchema { schema: \"x\" }; check the access scope, the table allow-list, and the eh_service grants on INFORMATION_SCHEMA"
    );
}

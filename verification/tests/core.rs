use eventhorizon::access::{BindingAccessMode, BindingAccessScope, SourceAccessScope};
use eventhorizon::artifact::{Artifact, ArtifactRow};
use eventhorizon::caller_context::CallerContext;
use eventhorizon::entity::{Entity, EntityBinding, EntityField, FieldMap, FieldType, Profile};
use eventhorizon::error::Error;
use eventhorizon::intent::{action_label, Action, Intent, Mode};
use eventhorizon::json::{JsonValue};
use eventhorizon::strmap::StrMap;

fn s(v: &str) -> JsonValue {
    JsonValue::String(v.to_string())
}

fn pairs(p: &[(&str, &str)]) -> Vec<(String, String)> {
    p.iter().map(|(a, b)| (a.to_string(), b.to_string())).collect()
}

fn customer() -> Entity {
    Entity {
        name: "Customer".to_string(),
        fields: vec![
            EntityField { name: "id".to_string(), data_type: FieldType::Uuid, nullable: false, pii: false },
            EntityField { name: "email".to_string(), data_type: FieldType::String, nullable: false, pii: true },
            EntityField { name: "signup_at".to_string(), data_type: FieldType::Timestamp, nullable: false, pii: false },
        ],
    }
}

#[test]
fn source_scope_tables_contains() {
    let s = SourceAccessScope::Tables { schema: "eh_demo".into(), tables: vec!["customers".into(), "orders".into()] };
    assert!(s.contains("eh_demo", "customers"));
    assert!(s.contains("eh_demo", "orders"));
    assert!(!s.contains("eh_demo", "secrets"));
    assert!(!s.contains("other_schema", "customers"));
}

#[test]
fn source_scope_whole_schema_contains_any_table_in_schema() {
    let s = SourceAccessScope::WholeSchema { schema: "eh_demo".into() };
    assert!(s.contains("eh_demo", "anything"));
    assert!(!s.contains("eh_admin", "anything"));
}

#[test]
fn source_scope_whole_database_contains_listed_schemas() {
    let s = SourceAccessScope::WholeDatabase { databases: vec!["eh_demo".into(), "eh_analytics".into()] };
    assert!(s.contains("eh_demo", "x"));
    assert!(s.contains("eh_analytics", "y"));
    assert!(!s.contains("eh_admin", "x"));
}

#[test]
fn explicit_tables_returns_some_for_bounded_scopes() {
    let s = SourceAccessScope::Tables { schema: "eh_demo".into(), tables: vec!["customers".into(), "orders".into()] };
    let got = s.explicit_tables().unwrap();
    assert_eq!(got.len(), 2);
    assert!(got.contains(&("eh_demo".into(), "customers".into())));
    let s2 = SourceAccessScope::WholeSchema { schema: "eh_demo".into() };
    assert!(s2.explicit_tables().is_none());
}

#[test]
fn binding_scope_subset_of_source_scope_check() {
    let source = SourceAccessScope::Tables { schema: "eh_demo".into(), tables: vec!["customers".into(), "orders".into()] };
    let binding = BindingAccessScope::Table { schema: "eh_demo".into(), table: "customers".into() };
    assert!(source.contains("eh_demo", "customers"));
    assert!(binding.contains("eh_demo", "customers"));
    assert!(!binding.contains("eh_demo", "orders"));
}

#[test]
fn binding_access_mode_defaults_to_intent() {
    assert_eq!(BindingAccessMode::default(), BindingAccessMode::Intent);
}

#[test]
fn scope_debug_text_matches_derived_form() {
    let s = SourceAccessScope::Tables { schema: "eh_demo".into(), tables: vec!["customers".into(), "orders".into()] };
    assert_eq!(s.debug_repr(), "Tables { schema: \"eh_demo\", tables: [\"customers\", \"orders\"] }");
    let t = SourceAccessScope::Table { schema: "a".into(), table: "b".into() };
    assert_eq!(t.debug_repr(), format!("{t:?}"));
}

#[test]
fn artifact_row_insert_get_round_trip() {
    let mut row = ArtifactRow::new();
    assert!(row.is_empty());
    row.insert("id", s("cust_1"));
    row.insert("email", s("alice@example.com"));
    assert_eq!(row.len(), 2);
    assert!(matches!(row.get("id"), Some(JsonValue::String(v)) if v == "cust_1"));
    assert!(matches!(row.get("email"), Some(JsonValue::String(v)) if v == "alice@example.com"));
    let names: Vec<&str> = row.entries().iter().map(|(k, _)| k.as_str()).collect();
    assert_eq!(names, vec!["id", "email"]);
}

#[test]
fn artifact_row_insert_replaces_in_place() {
    let mut row = ArtifactRow::default();
    row.insert("b", s("1"));
    row.insert("a", s("2"));
    let prev = row.insert("b", s("3"));
    assert!(matches!(prev, Some(JsonValue::String(v)) if v == "1"));
    assert_eq!(row.len(), 2);
    let names: Vec<&str> = row.entries().iter().map(|(k, _)| k.as_str()).collect();
    assert_eq!(names, vec!["b", "a"]);
    assert!(matches!(row.get("b"), Some(JsonValue::String(v)) if v == "3"));
    assert!(row.get("c").is_none());
}

#[test]
fn artifact_with_one_row_round_trip() {
    let mut row = ArtifactRow::new();
    row.insert("id", s("cust_1"));
    let artifact = Artifact { rows: vec![row], source_kind: "mysql".to_string(), source_id: None };
    assert_eq!(artifact.len(), 1);
    assert!(!artifact.is_empty());
}

#[test]
fn empty_artifact() {
    let artifact = Artifact { rows: vec![], source_kind: "mysql".to_string(), source_id: None };
    assert!(artifact.is_empty());
    assert_eq!(artifact.len(), 0);
}

#[test]
fn for_tenant_generates_fresh_trace_id() {
    let t = uuid::Uuid::now_v7().as_u128();
    let a = CallerContext::for_tenant(t);
    let b = CallerContext::for_tenant(t);
    assert_eq!(a.tenant_id, b.tenant_id);
    assert_ne!(a.trace_id, b.trace_id);
    assert!(a.agent_id.is_none());
    assert!(a.agent_token.is_none());
    assert_eq!(uuid::Uuid::from_u128(a.trace_id).get_version_num(), 7);
}

#[test]
fn entity_field_lookup() {
    let e = customer();
    assert_eq!(e.field("email").unwrap().data_type, FieldType::String);
    assert!(e.field("nope").is_none());
    assert!(e.has_all_fields(&["id", "email"]));
    assert!(!e.has_all_fields(&["id", "nope"]));
}

#[test]
fn field_map_falls_back_to_logical_name() {
    let m = FieldMap::from_pairs(pairs(&[("id", "customer_id"), ("email", "contact_email")]));
    assert_eq!(m.physical_for("id"), "customer_id");
    assert_eq!(m.physical_for("email"), "contact_email");
    assert_eq!(m.physical_for("signup_at"), "signup_at");
}

#[test]
fn field_map_later_pair_wins() {
    let m = FieldMap::from_pairs(pairs(&[("id", "first"), ("id", "second")]));
    assert_eq!(m.physical_for("id"), "second");
    assert_eq!(m.mapping.len(), 1);
}

#[test]
fn binding_supports_action() {
    let b = EntityBinding {
        entity: "Customer".to_string(),
        source: "fvp_mysql".to_string(),
        physical_table: "eh_demo.customers".to_string(),
        profile: Profile::Oltp,
        supported_actions: vec![Action::Read],
        field_map: FieldMap::default(),
    };
    assert!(b.supports(Action::Read));
    assert!(!b.supports(Action::Append));
}

#[test]
fn unknown_entity_displays_with_name() {
    let e = Error::UnknownEntity("Customer".to_string());
    assert_eq!(e.message(), "unknown entity: Customer");
}

#[test]
fn type_mismatch_displays_all_three_parts() {
    let e = Error::TypeMismatch { field: "id".to_string(), expected: "uuid".to_string(), actual: "text".to_string() };
    assert_eq!(e.message(), "type mismatch on field `id`: expected uuid, got text");
}

#[test]
fn other_wraps_anyhow() {
    let upstream = anyhow::Error::msg("upstream failure");
    let err = Error::Other(upstream.to_string());
    assert!(matches!(err, Error::Other(_)));
    assert_eq!(err.message(), "upstream failure");
}

#[test]
fn read_intent_without_mode_defaults_to_point() {
    let intent = Intent { action: Action::Read, entity: "Customer".to_string(), mode: None, fields: None, filter: None, payload: None };
    assert_eq!(intent.effective_mode(), Some(Mode::Point));
}

#[test]
fn append_intent_has_no_effective_mode() {
    let intent = Intent {
        action: Action::Append,
        entity: "Customer".to_string(),
        mode: None,
        fields: None,
        filter: None,
        payload: Some(JsonValue::Object(StrMap::new())),
    };
    assert_eq!(intent.effective_mode(), None);
}

#[test]
fn read_intent_keeps_explicit_mode_and_labels_actions() {
    let intent = Intent { action: Action::Read, entity: "Customer".to_string(), mode: Some(Mode::Trend), fields: None, filter: None, payload: None };
    assert_eq!(intent.effective_mode(), Some(Mode::Trend));
    assert_eq!(action_label(Action::Read), "read");
    assert_eq!(action_label(Action::Append), "append");
}

#[test]
fn enumerated_tables_are_in_scope() {
    let scopes = vec![
        SourceAccessScope::Table { schema: "eh_demo".into(), table: "customers".into() },
        SourceAccessScope::Tables { schema: "eh_demo".into(), tables: vec!["customers".into(), "orders".into()] },
    ];
    for s in &scopes {
        let listed = s.explicit_tables().expect("bounded scopes list their tables");
        for (schema, table) in &listed {
            assert!(s.contains(schema, table));
        }
    }
    let whole = SourceAccessScope::WholeDatabase { databases: vec!["eh_demo".into(), "eh_analytics".into()] };
    assert!(whole.explicit_tables().is_none());
    for schema in eventhorizon::mysql::introspection::schemas_to_list(&whole) {
        assert!(whole.contains(&schema, "any_table"));
    }
}

#[test]
fn field_map_ignores_order_of_distinct_pairs() {
    let a = FieldMap::from_pairs(pairs(&[("id", "cust_id"), ("email", "mail"), ("name", "full_name")]));
    let b = FieldMap::from_pairs(pairs(&[("name", "full_name"), ("id", "cust_id"), ("email", "mail")]));
    for k in ["id", "email", "name", "other"] {
        assert_eq!(a.physical_for(k), b.physical_for(k));
    }
    assert_eq!(a.mapping.len(), b.mapping.len());
}

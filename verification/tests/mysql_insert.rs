use eventhorizon::connector::errors::ConnectorError;
use eventhorizon::entity::{Entity, EntityBinding, EntityField, FieldMap, FieldType, Profile};
use eventhorizon::intent::{Action, Intent};
use eventhorizon::json::JsonValue;
use eventhorizon::mysql::insert::{build_insert, build_insert_with_ids};
use eventhorizon::mysql::types::BindValue;
use eventhorizon::strmap::StrMap;

fn s(v: &str) -> JsonValue {
    JsonValue::String(v.to_string())
}

fn obj(pairs: Vec<(&str, JsonValue)>) -> JsonValue {
    let mut m = StrMap::new();
    for (k, v) in pairs {
        m.insert(k.to_string(), v);
    }
    JsonValue::Object(m)
}

fn pairs(p: &[(&str, &str)]) -> Vec<(String, String)> {
    p.iter().map(|(a, b)| (a.to_string(), b.to_string())).collect()
}

fn field(name: &str, t: FieldType, pii: bool) -> EntityField {
    EntityField { name: name.into(), data_type: t, nullable: false, pii }
}

fn customer_entity() -> Entity {
    Entity {
        name: "Customer".to_string(),
        fields: vec![
            field("id", FieldType::Uuid, false),
            field("name", FieldType::String, true),
            field("email", FieldType::String, true),
            field("signup_at", FieldType::Timestamp, false),
            field("ltv_usd", FieldType::Decimal, false),
        ],
    }
}

fn customer_binding() -> EntityBinding {
    EntityBinding {
        entity: "Customer".to_string(),
        source: "fvp_mysql".to_string(),
        physical_table: "eh_demo.customers".to_string(),
        profile: Profile::Oltp,
        supported_actions: vec![Action::Read, Action::Append],
        field_map: FieldMap::default(),
    }
}

fn intent_with_payload(payload: JsonValue) -> Intent {
    Intent { action: Action::Append, entity: "Customer".into(), mode: None, fields: None, filter: None, payload: Some(payload) }
}

fn full_payload() -> Vec<(&'static str, JsonValue)> {
    vec![
        ("id", s("01914a01-7001-7001-8001-000000000001")),
        ("name", s("Alice")),
        ("email", s("alice@example.com")),
        ("signup_at", s("2024-09-01T09:00:00")),
        ("ltv_usd", s("1250.00")),
    ]
}

#[test]
fn build_insert_emits_expected_sql_and_binds() {
    let intent = intent_with_payload(obj(full_payload()));
    let built = build_insert(&customer_binding(), &customer_entity(), &intent).unwrap();
    assert_eq!(
        built.sql,
        "INSERT INTO eh_demo.customers (`id`, `name`, `email`, `signup_at`, `ltv_usd`) VALUES (?, ?, ?, ?, ?)"
    );
    assert_eq!(built.binds.len(), 5);
    assert!(matches!(built.binds[0], BindValue::Uuid(_)));
    assert!(matches!(built.binds[1], BindValue::String(ref s) if s == "Alice"));
    assert!(matches!(built.binds[3], BindValue::Timestamp(..)));
    assert!(matches!(built.binds[4], BindValue::Decimal(_)));
}

#[test]
fn build_insert_generates_uuidv7_when_id_missing() {
    let mut p = full_payload();
    p.remove(0);
    let built = build_insert(&customer_binding(), &customer_entity(), &intent_with_payload(obj(p))).unwrap();
    let id = match &built.binds[0] {
        BindValue::Uuid(u) => *u,
        _ => panic!("expected Uuid"),
    };
    assert_eq!(uuid::Uuid::from_u128(id).get_version_num(), 7);
}

#[test]
fn build_insert_rejects_missing_required_non_id_field() {
    let intent = intent_with_payload(obj(vec![
        ("id", s("01914a01-7001-7001-8001-000000000001")),
        ("name", s("Alice")),
        ("email", s("alice@example.com")),
    ]));
    let err = build_insert(&customer_binding(), &customer_entity(), &intent).unwrap_err();
    assert!(matches!(err, ConnectorError::InvalidIntent(ref s) if s.contains("signup_at") || s.contains("ltv_usd")));
}

#[test]
fn build_insert_rejects_unknown_payload_key() {
    let mut p = full_payload();
    p.push(("frobnicator", s("spy")));
    let err = build_insert(&customer_binding(), &customer_entity(), &intent_with_payload(obj(p))).unwrap_err();
    assert!(matches!(err, ConnectorError::InvalidIntent(ref s) if s.contains("frobnicator")));
}

#[test]
fn build_insert_rejects_missing_payload() {
    let intent = Intent { action: Action::Append, entity: "Customer".into(), mode: None, fields: None, filter: None, payload: None };
    let err = build_insert(&customer_binding(), &customer_entity(), &intent).unwrap_err();
    assert!(matches!(err, ConnectorError::InvalidIntent(_)));
}

#[test]
fn build_insert_rejects_non_object_payload() {
    let err = build_insert(&customer_binding(), &customer_entity(), &intent_with_payload(s("not-an-object"))).unwrap_err();
    assert!(matches!(err, ConnectorError::InvalidIntent(_)));
}

#[test]
fn build_insert_uses_field_map_for_physical_column_names() {
    let mut binding = customer_binding();
    binding.field_map = FieldMap::from_pairs(pairs(&[
        ("id", "customer_id"),
        ("name", "full_name"),
        ("email", "contact_email"),
        ("signup_at", "created_at"),
        ("ltv_usd", "lifetime_value_usd"),
    ]));
    let built = build_insert(&binding, &customer_entity(), &intent_with_payload(obj(full_payload()))).unwrap();
    assert!(built.sql.contains("`customer_id`"));
    assert!(built.sql.contains("`full_name`"));
    assert!(built.sql.contains("`contact_email`"));
    assert!(built.sql.contains("`created_at`"));
    assert!(built.sql.contains("`lifetime_value_usd`"));
}

#[test]
fn build_insert_nullable_field_omitted_binds_null() {
    let entity = Entity {
        name: "X".into(),
        fields: vec![
            EntityField { name: "id".into(), data_type: FieldType::Uuid, nullable: false, pii: false },
            EntityField { name: "optional".into(), data_type: FieldType::String, nullable: true, pii: false },
        ],
    };
    let binding = EntityBinding {
        entity: "X".into(),
        source: "s".into(),
        physical_table: "xs".into(),
        profile: Profile::Oltp,
        supported_actions: vec![Action::Append],
        field_map: FieldMap::default(),
    };
    let intent = Intent { action: Action::Append, entity: "X".into(), mode: None, fields: None, filter: None, payload: Some(obj(vec![])) };
    let built = build_insert(&binding, &entity, &intent).unwrap();
    assert_eq!(built.binds.len(), 2);
    assert!(matches!(built.binds[0], BindValue::Uuid(_)));
    assert!(matches!(built.binds[1], BindValue::Null));
}

#[test]
fn supplied_ids_are_used_in_field_order_and_messages_are_exact() {
    let mut p = full_payload();
    p.remove(0);
    let built = build_insert_with_ids(&customer_binding(), &customer_entity(), &intent_with_payload(obj(p)), &vec![42u128]).unwrap();
    assert!(matches!(built.binds[0], BindValue::Uuid(42)));
    let err = build_insert(&customer_binding(), &customer_entity(), &intent_with_payload(obj(vec![("id", s("01914a01-7001-7001-8001-000000000001"))]))).unwrap_err();
    assert_eq!(err.message(), "invalid intent for connector: append payload missing required field \"name\"");
    let empty = Entity { name: "E".into(), fields: vec![] };
    let err = build_insert(&customer_binding(), &empty, &intent_with_payload(obj(vec![]))).unwrap_err();
    assert_eq!(err.message(), "invalid intent for connector: entity has no fields; cannot build INSERT");
}

#[test]
fn insert_placeholders_match_binds() {
    let built = build_insert(&customer_binding(), &customer_entity(), &intent_with_payload(obj(full_payload()))).unwrap();
    assert_eq!(built.sql.matches('?').count(), built.binds.len());
}

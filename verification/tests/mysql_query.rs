use eventhorizon::connector::errors::ConnectorError;
use eventhorizon::entity::{Entity, EntityBinding, EntityField, FieldMap, FieldType, Profile};
use eventhorizon::intent::{Action, Intent, Mode};
use eventhorizon::json::JsonValue;
use eventhorizon::mysql::query::{build_select, resolve_projection};
use eventhorizon::mysql::types::BindValue;
use eventhorizon::strmap::StrMap;

fn s(v: &str) -> JsonValue {
    JsonValue::String(v.to_string())
}

fn obj(pairs: Vec<(&str, JsonValue)>) -> JsonValue {
    let mut m = StrMap::new();
    for (k, v) in pairs {
        m.insert(k.to_string(), v);
    }
    JsonValue::Object(m)
}

fn pairs(p: &[(&str, &str)]) -> Vec<(String, String)> {
    p.iter().map(|(a, b)| (a.to_string(), b.to_string())).collect()
}

fn field(name: &str, t: FieldType, pii: bool) -> EntityField {
    EntityField { name: name.into(), data_type: t, nullable: false, pii }
}

fn customer_entity() -> Entity {
    Entity {
        name: "Customer".to_string(),
        fields: vec![
            field("id", FieldType::Uuid, false),
            field("name", FieldType::String, true),
            field("email", FieldType::String, true),
            field("signup_at", FieldType::Timestamp, false),
            field("ltv_usd", FieldType::Decimal, false),
        ],
    }
}

fn customer_binding() -> EntityBinding {
    EntityBinding {
        entity: "Customer".to_string(),
        source: "fvp_mysql".to_string(),
        physical_table: "eh_demo.customers".to_string(),
        profile: Profile::Oltp,
        supported_actions: vec![Action::Read],
        field_map: FieldMap::from_pairs(pairs(&[
            ("id", "id"),
            ("name", "name"),
            ("email", "email"),
            ("signup_at", "signup_at"),
            ("ltv_usd", "ltv_usd"),
        ])),
    }
}

fn read(fields: Option<Vec<&str>>, filter: Option<JsonValue>) -> Intent {
    Intent {
        action: Action::Read,
        entity: "Customer".into(),
        mode: Some(Mode::Point),
        fields: fields.map(|f| f.into_iter().map(String::from).collect()),
        filter,
        payload: None,
    }
}

#[test]
fn select_all_fields_when_projection_omitted() {
    let built = build_select(&customer_binding(), &customer_entity(), &read(None, None)).unwrap();
    let cols: Vec<_> = built.projection.iter().map(|c| c.logical.as_str()).collect();
    assert_eq!(cols, vec!["id", "name", "email", "signup_at", "ltv_usd"]);
    assert!(built.binds.is_empty());
    assert!(built.sql.starts_with("SELECT `id`, `name`, `email`, `signup_at`, `ltv_usd` FROM eh_demo.customers"));
    assert!(built.sql.contains("WHERE `is_current` = 1"));
    assert!(built.sql.ends_with("LIMIT 1000"));
}

#[test]
fn select_projected_fields_in_requested_order() {
    let built = build_select(&customer_binding(), &customer_entity(), &read(Some(vec!["email", "id"]), None)).unwrap();
    let cols: Vec<_> = built.projection.iter().map(|c| c.logical.as_str()).collect();
    assert_eq!(cols, vec!["email", "id"]);
    assert!(built.sql.starts_with("SELECT `email`, `id` FROM"));
}

#[test]
fn select_with_filter_binds_parameterised() {
    let filter = obj(vec![("email", s("alice@example.com")), ("id", s("01914a01-7001-7001-8001-000000000001"))]);
    let built = build_select(&customer_binding(), &customer_entity(), &read(Some(vec!["id", "email"]), Some(filter))).unwrap();
    assert!(built.sql.contains("WHERE `email` = ? AND `id` = ? AND `is_current` = 1"));
    assert_eq!(built.binds.len(), 2);
    assert!(matches!(built.binds[0], BindValue::String(ref s) if s == "alice@example.com"));
    assert!(matches!(built.binds[1], BindValue::Uuid(_)));
}

#[test]
fn select_rejects_filter_referencing_unknown_field() {
    let err = build_select(&customer_binding(), &customer_entity(), &read(None, Some(obj(vec![("frobnicator", s("x"))])))).unwrap_err();
    assert!(matches!(err, ConnectorError::InvalidIntent(_)));
}

#[test]
fn select_rejects_projection_referencing_unknown_field() {
    let err = build_select(&customer_binding(), &customer_entity(), &read(Some(vec!["mystery"]), None)).unwrap_err();
    assert!(matches!(err, ConnectorError::InvalidIntent(_)));
}

#[test]
fn select_rejects_filter_that_is_not_object() {
    let err = build_select(&customer_binding(), &customer_entity(), &read(None, Some(s("not-an-object")))).unwrap_err();
    assert!(matches!(err, ConnectorError::InvalidIntent(_)));
}

#[test]
fn select_uses_field_map_to_translate_logical_to_physical() {
    let mut binding = customer_binding();
    binding.field_map = FieldMap::from_pairs(pairs(&[
        ("id", "customer_id"),
        ("email", "contact_email"),
        ("name", "full_name"),
        ("signup_at", "created_at"),
        ("ltv_usd", "lifetime_value_usd"),
    ]));
    let filter = obj(vec![("id", s("01914a01-7001-7001-8001-000000000001"))]);
    let built = build_select(&binding, &customer_entity(), &read(Some(vec!["id", "email"]), Some(filter))).unwrap();
    assert!(built.sql.contains("`customer_id`"));
    assert!(built.sql.contains("`contact_email`"));
    assert!(built.sql.contains("WHERE `customer_id` = ?"));
}

#[test]
fn select_full_text_and_current_row_guard() {
    let filter = obj(vec![("email", s("a@b.c"))]);
    let built = build_select(&customer_binding(), &customer_entity(), &read(Some(vec!["id"]), Some(filter))).unwrap();
    assert_eq!(built.sql, "SELECT `id` FROM eh_demo.customers WHERE `email` = ? AND `is_current` = 1 LIMIT 1000");
    let mut entity = customer_entity();
    entity.fields.push(EntityField { name: "is_current".into(), data_type: FieldType::Bool, nullable: false, pii: false });
    let built = build_select(&customer_binding(), &entity, &read(Some(vec!["id"]), None)).unwrap();
    assert_eq!(built.sql, "SELECT `id` FROM eh_demo.customers LIMIT 1000");
}

#[test]
fn select_error_messages_and_bad_table() {
    let err = build_select(&customer_binding(), &customer_entity(), &read(None, Some(obj(vec![("ghost", s("x"))])))).unwrap_err();
    assert_eq!(err.message(), "invalid intent for connector: filter references unknown field \"ghost\" on entity Customer");
    let mut binding = customer_binding();
    binding.physical_table = "a;drop".to_string();
    assert!(matches!(build_select(&binding, &customer_entity(), &read(None, None)), Err(ConnectorError::InvalidIntent(_))));
    let err = build_select(&customer_binding(), &customer_entity(), &read(None, Some(obj(vec![("id", s("nope"))])))).unwrap_err();
    assert!(matches!(err, ConnectorError::TypeMismatch { ref field, ref expected, ref actual } if field == "id" && expected == "uuid" && actual == "string"));
}

#[test]
fn projection_resolves_types_and_physical_names() {
    let mut binding = customer_binding();
    binding.field_map = FieldMap::from_pairs(pairs(&[("ltv_usd", "lifetime_value_usd")]));
    let requested = vec!["ltv_usd".to_string()];
    let proj = resolve_projection(&binding, &customer_entity(), Some(&requested)).unwrap();
    assert_eq!(proj.len(), 1);
    assert_eq!(proj[0].physical, "lifetime_value_usd");
    assert_eq!(proj[0].field_type, FieldType::Decimal);
    let empty = Entity { name: "Empty".into(), fields: vec![] };
    let err = build_select(&binding, &empty, &read(None, None)).unwrap_err();
    assert_eq!(err.message(), "invalid intent for connector: projection resolves to no columns");
}

#[test]
fn filter_values_never_reach_the_sql_text() {
    let hostile = obj(vec![("email", s("x' OR '1'='1"))]);
    let plain = obj(vec![("email", s("alice@example.com"))]);
    let a = build_select(&customer_binding(), &customer_entity(), &read(None, Some(hostile))).unwrap();
    let b = build_select(&customer_binding(), &customer_entity(), &read(None, Some(plain))).unwrap();
    assert_eq!(a.sql, b.sql);
    assert!(!a.sql.contains("OR '1'"));
    assert_eq!(a.binds.len(), 1);
    assert!(matches!(a.binds[0], BindValue::String(ref v) if v == "x' OR '1'='1"));
}

#[test]
fn select_placeholders_match_binds() {
    for filter in [None, Some(obj(vec![("email", s("a@b.c"))])), Some(obj(vec![("email", s("a?")), ("name", s("?"))]))] {
        let built = build_select(&customer_binding(), &customer_entity(), &read(None, filter)).unwrap();
        assert_eq!(built.sql.matches('?').count(), built.binds.len());
    }
}

#[test]
fn select_ignores_payload_and_mode() {
    let a = build_select(&customer_binding(), &customer_entity(), &read(Some(vec!["email"]), None)).unwrap();
    let mut i = read(Some(vec!["email"]), None);
    i.mode = Some(Mode::Aggregate);
    i.payload = Some(obj(vec![("email", s("x"))]));
    let b = build_select(&customer_binding(), &customer_entity(), &i).unwrap();
    assert_eq!(a.sql, b.sql);
    assert_eq!(a.binds.len(), b.binds.len());
}

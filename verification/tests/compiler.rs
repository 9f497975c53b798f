use eventhorizon::compiler::{validate, CompileError};
use eventhorizon::entity::{Entity, EntityField, FieldType};
use eventhorizon::intent::{Action, Intent, Mode};
use eventhorizon::json::{JsonNumber, JsonValue};
use eventhorizon::strmap::StrMap;

fn s(v: &str) -> JsonValue {
    JsonValue::String(v.to_string())
}

fn obj(pairs: Vec<(&str, JsonValue)>) -> JsonValue {
    let mut m = StrMap::new();
    for (k, v) in pairs {
        m.insert(k.to_string(), v);
    }
    JsonValue::Object(m)
}

fn customer() -> Entity {
    Entity {
        name: "Customer".to_string(),
        fields: vec![
            EntityField { name: "id".into(), data_type: FieldType::Uuid, nullable: false, pii: false },
            EntityField { name: "email".into(), data_type: FieldType::String, nullable: false, pii: true },
        ],
    }
}

fn read_intent() -> Intent {
    Intent {
        action: Action::Read,
        entity: "Customer".into(),
        mode: Some(Mode::Point),
        fields: Some(vec!["id".into(), "email".into()]),
        filter: Some(obj(vec![("id", s("x"))])),
        payload: None,
    }
}

#[test]
fn read_intent_valid() {
    validate(&read_intent(), &customer()).unwrap();
}

#[test]
fn read_intent_with_payload_rejected() {
    let mut i = read_intent();
    i.payload = Some(obj(vec![]));
    assert_eq!(validate(&i, &customer()).unwrap_err(), CompileError::ReadHasPayload);
}

#[test]
fn entity_mismatch_rejected() {
    let mut i = read_intent();
    i.entity = "Phantom".into();
    match validate(&i, &customer()).unwrap_err() {
        CompileError::EntityMismatch { intent_entity, entity_name } => {
            assert_eq!(intent_entity, "Phantom");
            assert_eq!(entity_name, "Customer");
        }
        other => panic!("expected EntityMismatch, got {other:?}"),
    }
}

#[test]
fn unknown_projection_field_rejected() {
    let mut i = read_intent();
    i.fields = Some(vec!["id".into(), "ghost".into()]);
    match validate(&i, &customer()).unwrap_err() {
        CompileError::UnknownProjectionField { field, entity } => {
            assert_eq!(field, "ghost");
            assert_eq!(entity, "Customer");
        }
        other => panic!("got {other:?}"),
    }
}

#[test]
fn unknown_filter_field_rejected() {
    let mut i = read_intent();
    i.filter = Some(obj(vec![("ghost", s("x"))]));
    match validate(&i, &customer()).unwrap_err() {
        CompileError::UnknownFilterField { field, entity } => {
            assert_eq!(field, "ghost");
            assert_eq!(entity, "Customer");
        }
        other => panic!("got {other:?}"),
    }
}

#[test]
fn non_object_filter_rejected() {
    let mut i = read_intent();
    i.filter = Some(s("not-an-object"));
    assert_eq!(validate(&i, &customer()).unwrap_err(), CompileError::FilterNotObject);
}

#[test]
fn append_without_payload_rejected() {
    let i = Intent { action: Action::Append, entity: "Customer".into(), mode: None, fields: None, filter: None, payload: None };
    assert_eq!(validate(&i, &customer()).unwrap_err(), CompileError::AppendMissingPayload);
}

#[test]
fn append_with_non_object_payload_rejected() {
    let i = Intent {
        action: Action::Append,
        entity: "Customer".into(),
        mode: None,
        fields: None,
        filter: None,
        payload: Some(JsonValue::Number(JsonNumber::PosInt(42))),
    };
    assert_eq!(validate(&i, &customer()).unwrap_err(), CompileError::PayloadNotObject);
}

#[test]
fn append_with_unknown_payload_field_rejected() {
    let i = Intent {
        action: Action::Append,
        entity: "Customer".into(),
        mode: None,
        fields: None,
        filter: None,
        payload: Some(obj(vec![("id", s("x")), ("ghost", s("y"))])),
    };
    match validate(&i, &customer()).unwrap_err() {
        CompileError::UnknownPayloadField { field, entity } => {
            assert_eq!(field, "ghost");
            assert_eq!(entity, "Customer");
        }
        other => panic!("got {other:?}"),
    }
}

#[test]
fn append_with_valid_payload_accepted() {
    let i = Intent {
        action: Action::Append,
        entity: "Customer".into(),
        mode: None,
        fields: None,
        filter: None,
        payload: Some(obj(vec![("id", s("x")), ("email", s("y@z.com"))])),
    };
    validate(&i, &customer()).unwrap();
}

#[test]
fn compile_error_messages_name_the_field_and_entity() {
    let mut i = read_intent();
    i.fields = Some(vec!["ghost".into()]);
    let e = validate(&i, &customer()).unwrap_err();
    let m = e.message();
    assert!(m.contains("ghost"));
    assert!(m.contains("Customer"));
}

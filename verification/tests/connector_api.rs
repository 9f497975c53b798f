use eventhorizon::connector::caps::{ConnectorCaps, PushdownLevel};
use eventhorizon::connector::errors::ConnectorError;
use eventhorizon::connector::outcome::AppendOutcome;
use eventhorizon::connector::registry::{debug_strings, ConnectorFactory, ConnectorRegistry};
use eventhorizon::intent::Action;

struct DummyFactory(&'static str);

impl ConnectorFactory for DummyFactory {
    fn kind(&self) -> &'static str {
        self.0
    }
}

#[test]
fn none_declares_nothing() {
    let c = ConnectorCaps::none();
    assert!(!c.supports_read);
    assert!(!c.supports_append);
    assert_eq!(c.predicate_pushdown, PushdownLevel::NoPushdown);
    assert!(!c.projection_pushdown);
    assert!(!c.streaming);
}

#[test]
fn type_mismatch_displays_all_parts() {
    let e = ConnectorError::TypeMismatch { field: "id".to_string(), expected: "uuid".to_string(), actual: "text".to_string() };
    assert_eq!(e.message(), "type mismatch on field `id`: expected uuid, got text");
}

#[test]
fn unsupported_displays_action() {
    let e = ConnectorError::Unsupported(Action::Append);
    assert_eq!(e.message(), "connector does not support action `Append`");
}

#[test]
fn engine_refusal_message_round_trip() {
    let e = ConnectorError::EngineRefusal("INSERT command denied to user".to_string());
    assert!(e.message().contains("INSERT command denied"));
}

#[test]
fn connector_error_messages_are_prefixed() {
    assert_eq!(ConnectorError::Connect("down".to_string()).message(), "connect failed: down");
    assert_eq!(ConnectorError::Backend("boom".to_string()).message(), "backend error: boom");
    assert_eq!(ConnectorError::InvalidIntent("bad".to_string()).message(), "invalid intent for connector: bad");
}

#[test]
fn one_is_one() {
    assert_eq!(AppendOutcome::one().rows_inserted, 1);
}

#[test]
fn empty_registry_has_no_kinds() {
    let r: ConnectorRegistry<DummyFactory> = ConnectorRegistry::new();
    assert!(r.known_kinds().is_empty());
    assert!(r.factory("mysql").is_none());
}

#[test]
fn register_and_lookup_by_kind() {
    let mut r = ConnectorRegistry::new();
    r.register(DummyFactory("dummy")).unwrap();
    assert_eq!(r.known_kinds(), vec!["dummy".to_string()]);
    assert!(r.factory("dummy").is_some());
    assert!(r.factory("missing").is_none());
}

#[test]
fn duplicate_registration_is_rejected() {
    let mut r = ConnectorRegistry::new();
    r.register(DummyFactory("dummy")).unwrap();
    let err = r.register(DummyFactory("dummy")).unwrap_err();
    match err {
        ConnectorError::Connect(msg) => assert!(msg.contains("already registered")),
        other => panic!("expected Connect error, got {other:?}"),
    }
}

#[test]
fn build_dispatches_to_factory() {
    let mut r = ConnectorRegistry::new();
    r.register(DummyFactory("dummy")).unwrap();
    match r.resolve_factory("dummy") {
        Ok(f) => assert_eq!(f.kind(), "dummy"),
        Err(e) => panic!("lookup should have succeeded, got {}", e.message()),
    }
}

#[test]
fn build_for_unregistered_kind_explains_feature_flag() {
    let r: ConnectorRegistry<DummyFactory> = ConnectorRegistry::new();
    match r.resolve_factory("mysql") {
        Ok(_) => panic!("lookup for unregistered kind should have failed"),
        Err(ConnectorError::Connect(msg)) => {
            assert!(msg.contains("no connector registered for kind \"mysql\""));
            assert!(msg.contains("connector-mysql"));
        }
        Err(other) => panic!("expected Connect error, got {other:?}"),
    }
}

#[test]
fn known_kinds_are_sorted_and_listed_in_errors() {
    let mut r = ConnectorRegistry::new();
    r.register(DummyFactory("zeta")).unwrap();
    r.register(DummyFactory("alpha")).unwrap();
    assert_eq!(r.known_kinds(), vec!["alpha".to_string(), "zeta".to_string()]);
    let err = r.resolve_factory("pg").err().unwrap();
    assert_eq!(
        err.message(),
        "connect failed: no connector registered for kind \"pg\". Known kinds: [\"alpha\", \"zeta\"]. If you intended to include this connector, enable the corresponding Cargo feature (e.g. `connector-pg`)."
    );
    assert_eq!(debug_strings(&vec![]), "[]");
}

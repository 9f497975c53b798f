use eventhorizon::artifact::Artifact;
use eventhorizon::config::compiled::CompiledConfig;
use eventhorizon::config::config_file::{Config, EntityFromYaml};
use eventhorizon::config::routing::{RoutingMatch, RoutingRule};
use eventhorizon::config::secret::SecretRef;
use eventhorizon::config::source::{MysqlSourceConfig, MysqlSslMode, SourceConfig};
use eventhorizon::connector::errors::ConnectorError;
use eventhorizon::connector::outcome::AppendOutcome;
use eventhorizon::dispatch::{
    append_response, code_label, dispatch_step, missing_connector_response, outcome_label, plan_dispatch,
    read_response, translate_connector_error, DispatchStep,
};
use eventhorizon::entity::{EntityBinding, EntityField, FieldMap, FieldType, Profile};
use eventhorizon::intent::{Action, Intent, Mode};
use eventhorizon::json::{JsonNumber, JsonValue};
use eventhorizon::protocol::{ErrorCode, ResponseEnvelope};
use eventhorizon::strmap::StrMap;

fn customer_entity() -> EntityFromYaml {
    EntityFromYaml {
        fields: vec![
            EntityField { name: "id".into(), data_type: FieldType::Uuid, nullable: false, pii: false },
            EntityField { name: "email".into(), data_type: FieldType::String, nullable: false, pii: true },
        ],
    }
}

fn mysql_source() -> SourceConfig {
    SourceConfig::Mysql(MysqlSourceConfig {
        host: "mysql".into(),
        port: 3306,
        database: "eh_demo".into(),
        username: "eh_service".into(),
        password: SecretRef::Env("FVP_MYSQL_SERVICE_PASSWORD".into()),
        ssl_mode: MysqlSslMode::Preferred,
        max_pool_size: 8,
    })
}

fn config(actions: Vec<Action>, rule_action: Option<Action>) -> CompiledConfig {
    let mut sources = StrMap::new();
    sources.insert("fvp_mysql".to_string(), mysql_source());
    let mut entities = StrMap::new();
    entities.insert("Customer".to_string(), customer_entity());
    let bindings = vec![EntityBinding {
        entity: "Customer".to_string(),
        source: "fvp_mysql".to_string(),
        physical_table: "eh_demo.customers".to_string(),
        profile: Profile::Oltp,
        supported_actions: actions,
        field_map: FieldMap::default(),
    }];
    let routing = vec![RoutingRule {
        when: RoutingMatch { entity: "Customer".into(), action: rule_action, mode: None },
        target: "fvp_mysql".into(),
    }];
    let cfg = Config { version: 1, sources, entities, bindings, routing };
    cfg.compile().expect("config should compile")
}

fn read_intent(entity: &str) -> Intent {
    Intent { action: Action::Read, entity: entity.into(), mode: None, fields: None, filter: None, payload: None }
}

fn error_parts(r: &ResponseEnvelope) -> (ErrorCode, String, Option<u64>) {
    match r {
        ResponseEnvelope::Error(e) => (e.code, e.message.clone(), e.retry_after_ms),
        ResponseEnvelope::Success(_) => panic!("expected an error response"),
    }
}

#[test]
fn plan_routes_a_valid_read() {
    let cfg = config(vec![Action::Read], Some(Action::Read));
    let routed = match plan_dispatch(&cfg, &read_intent("Customer")) {
        Ok(r) => r,
        Err(_) => panic!("expected a routed intent"),
    };
    assert_eq!(routed.source_name, "fvp_mysql");
    assert_eq!(routed.binding.physical_table, "eh_demo.customers");
    assert_eq!(routed.entity.name, "Customer");
}

#[test]
fn plan_refuses_unknown_entity() {
    let cfg = config(vec![Action::Read], Some(Action::Read));
    let r = match plan_dispatch(&cfg, &read_intent("Phantom")) {
        Err(r) => r,
        Ok(_) => panic!("expected a refusal"),
    };
    let (code, message, retry) = error_parts(&r);
    assert_eq!(code, ErrorCode::UnknownEntity);
    assert_eq!(message, "unknown entity \"Phantom\"");
    assert_eq!(retry, None);
}

#[test]
fn plan_refuses_invalid_shape() {
    let cfg = config(vec![Action::Read], Some(Action::Read));
    let mut i = read_intent("Customer");
    i.fields = Some(vec!["ghost".to_string()]);
    let r = match plan_dispatch(&cfg, &i) {
        Err(r) => r,
        Ok(_) => panic!("expected a refusal"),
    };
    let (code, message, _) = error_parts(&r);
    assert_eq!(code, ErrorCode::InvalidIntent);
    assert_eq!(message, "projection references unknown field \"ghost\" on entity \"Customer\"");
}

#[test]
fn plan_refuses_read_with_payload() {
    let cfg = config(vec![Action::Read], Some(Action::Read));
    let mut i = read_intent("Customer");
    i.payload = Some(JsonValue::Object(StrMap::new()));
    let r = match plan_dispatch(&cfg, &i) {
        Err(r) => r,
        Ok(_) => panic!("expected a refusal"),
    };
    let (code, message, _) = error_parts(&r);
    assert_eq!(code, ErrorCode::InvalidIntent);
    assert_eq!(message, "read intent must not include a payload");
}

#[test]
fn plan_refuses_without_route() {
    let cfg = config(vec![Action::Read], Some(Action::Append));
    let r = match plan_dispatch(&cfg, &read_intent("Customer")) {
        Err(r) => r,
        Ok(_) => panic!("expected a refusal"),
    };
    let (code, _, _) = error_parts(&r);
    assert_eq!(code, ErrorCode::NoBinding);
}

#[test]
fn plan_refuses_unsupported_action_as_forbidden() {
    let cfg = config(vec![Action::Append], None);
    let r = match plan_dispatch(&cfg, &read_intent("Customer")) {
        Err(r) => r,
        Ok(_) => panic!("expected a refusal"),
    };
    let (code, _, _) = error_parts(&r);
    assert_eq!(code, ErrorCode::Forbidden);
}

#[test]
fn plan_append_with_mode_routes() {
    let cfg = config(vec![Action::Read, Action::Append], None);
    let mut payload = StrMap::new();
    payload.insert("email".to_string(), JsonValue::String("a@b.c".to_string()));
    let i = Intent {
        action: Action::Append,
        entity: "Customer".into(),
        mode: Some(Mode::Point),
        fields: None,
        filter: None,
        payload: Some(JsonValue::Object(payload)),
    };
    assert!(plan_dispatch(&cfg, &i).is_ok());
}

#[test]
fn missing_connector_is_a_config_error() {
    let r = missing_connector_response("fvp_mysql");
    let (code, message, _) = error_parts(&r);
    assert_eq!(code, ErrorCode::ConfigError);
    assert_eq!(
        message,
        "source \"fvp_mysql\" has no connector instance (build feature missing or factory build failed)"
    );
}

#[test]
fn connector_errors_translate_to_codes() {
    let cases = vec![
        (ConnectorError::Connect("down".into()), ErrorCode::ConnectorError, "down".to_string()),
        (ConnectorError::Unhealthy("slow".into()), ErrorCode::ConnectorError, "slow".to_string()),
        (ConnectorError::InvalidIntent("bad".into()), ErrorCode::InvalidIntent, "bad".to_string()),
        (
            ConnectorError::EngineRefusal("no grant".into()),
            ErrorCode::Forbidden,
            "engine refused operation: no grant".to_string(),
        ),
        (ConnectorError::Backend("oops".into()), ErrorCode::ConnectorError, "oops".to_string()),
        (
            ConnectorError::Unsupported(Action::Append),
            ErrorCode::Forbidden,
            "connector does not support Append".to_string(),
        ),
    ];
    for (err, want_code, want_message) in cases {
        let r = translate_connector_error(err);
        let (code, message, retry) = error_parts(&r);
        assert_eq!(code, want_code);
        assert_eq!(message, want_message);
        assert_eq!(retry, None);
    }
}

#[test]
fn type_mismatch_is_an_invalid_intent() {
    let err = ConnectorError::TypeMismatch { field: "age".into(), expected: "int".into(), actual: "string".into() };
    let text = err.message();
    let r = translate_connector_error(err);
    let (code, message, _) = error_parts(&r);
    assert_eq!(code, ErrorCode::InvalidIntent);
    assert_eq!(message, text);
}

#[test]
fn read_response_passes_artifact_through() {
    let a = Artifact { rows: vec![], source_kind: "mysql".into(), source_id: None };
    let r = read_response(Ok(a));
    match r {
        ResponseEnvelope::Success(a) => {
            assert_eq!(a.source_kind, "mysql");
            assert!(a.is_empty());
        },
        ResponseEnvelope::Error(_) => panic!("expected success"),
    }
    let r = read_response(Err(ConnectorError::Backend("x".into())));
    assert_eq!(error_parts(&r).0, ErrorCode::ConnectorError);
}

#[test]
fn append_response_is_one_row_artifact() {
    let r = append_response("mysql", Ok(AppendOutcome { rows_inserted: 3 }));
    match r {
        ResponseEnvelope::Success(a) => {
            assert_eq!(a.len(), 1);
            assert_eq!(a.source_kind, "mysql");
            assert_eq!(a.source_id, None);
            match a.rows[0].get("rows_inserted") {
                Some(JsonValue::Number(JsonNumber::PosInt(n))) => assert_eq!(*n, 3),
                _ => panic!("expected rows_inserted"),
            }
            assert_eq!(a.rows[0].len(), 1);
        },
        ResponseEnvelope::Error(_) => panic!("expected success"),
    }
    let r = append_response("mysql", Err(ConnectorError::Unsupported(Action::Append)));
    assert_eq!(error_parts(&r).0, ErrorCode::Forbidden);
}

#[test]
fn outcome_and_code_labels() {
    let ok = read_response(Ok(Artifact { rows: vec![], source_kind: "mysql".into(), source_id: None }));
    assert_eq!(outcome_label(&ok), "ok");
    let err = missing_connector_response("x");
    assert_eq!(outcome_label(&err), "error");
    assert_eq!(code_label(ErrorCode::NoBinding), "nobinding");
    assert_eq!(code_label(ErrorCode::InvalidIntent), "invalidintent");
    assert_eq!(code_label(ErrorCode::ConfigError), "configerror");
}

#[test]
fn dispatch_step_executes_exactly_the_routed_action() {
    let cfg = config(vec![Action::Read, Action::Append], None);
    let connected = vec!["fvp_mysql".to_string()];
    match dispatch_step(&cfg, &read_intent("Customer"), &connected) {
        DispatchStep::ExecuteRead(ri) => assert_eq!(ri.source_name, "fvp_mysql"),
        _ => panic!("expected a read"),
    }
    let mut payload = StrMap::new();
    payload.insert("email".to_string(), JsonValue::String("a@b.c".to_string()));
    let append = Intent {
        action: Action::Append,
        entity: "Customer".into(),
        mode: None,
        fields: None,
        filter: None,
        payload: Some(JsonValue::Object(payload)),
    };
    match dispatch_step(&cfg, &append, &connected) {
        DispatchStep::ExecuteAppend(ri) => assert_eq!(ri.binding.physical_table, "eh_demo.customers"),
        _ => panic!("expected an append"),
    }
}

#[test]
fn dispatch_step_answers_without_connector_or_route() {
    let cfg = config(vec![Action::Read], Some(Action::Read));
    match dispatch_step(&cfg, &read_intent("Customer"), &vec![]) {
        DispatchStep::Answer(r) => {
            let (code, message, _) = error_parts(&r);
            assert_eq!(code, ErrorCode::ConfigError);
            assert!(message.starts_with("source \"fvp_mysql\" has no connector instance"));
        },
        _ => panic!("expected an answer"),
    }
    match dispatch_step(&cfg, &read_intent("Phantom"), &vec!["fvp_mysql".to_string()]) {
        DispatchStep::Answer(r) => assert_eq!(error_parts(&r).0, ErrorCode::UnknownEntity),
        _ => panic!("expected an answer"),
    }
}

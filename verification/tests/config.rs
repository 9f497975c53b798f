use eventhorizon::config::config_file::{Config, EntityFromYaml};
use eventhorizon::config::errors::ConfigError;
use eventhorizon::config::loader::{config_path, EH_CONFIG_ENV};
use eventhorizon::config::routing::{RoutingMatch, RoutingRule};
use eventhorizon::config::secret::{Secret, SecretRef};
use eventhorizon::config::source::{default_mysql_port, default_pool_size, MysqlSourceConfig, MysqlSslMode, SourceConfig};
use eventhorizon::entity::{EntityBinding, EntityField, FieldMap, FieldType, Profile};
use eventhorizon::intent::{Action, Mode};
use eventhorizon::strmap::StrMap;

fn pairs(p: &[(&str, &str)]) -> Vec<(String, String)> {
    p.iter().map(|(a, b)| (a.to_string(), b.to_string())).collect()
}

fn mk_source() -> SourceConfig {
    SourceConfig::Mysql(MysqlSourceConfig {
        host: "mysql".into(),
        port: 3306,
        database: "eh_demo".into(),
        username: "eh_service".into(),
        password: SecretRef::Env("FVP_MYSQL_SERVICE_PASSWORD".into()),
        ssl_mode: MysqlSslMode::Preferred,
        max_pool_size: 8,
    })
}

fn mk_entity() -> EntityFromYaml {
    EntityFromYaml {
        fields: vec![
            EntityField { name: "id".to_string(), data_type: FieldType::Uuid, nullable: false, pii: false },
            EntityField { name: "email".to_string(), data_type: FieldType::String, nullable: false, pii: true },
        ],
    }
}

fn mk_binding() -> EntityBinding {
    EntityBinding {
        entity: "Customer".to_string(),
        source: "fvp_mysql".to_string(),
        physical_table: "eh_demo.customers".to_string(),
        profile: Profile::Oltp,
        supported_actions: vec![Action::Read],
        field_map: FieldMap::from_pairs(pairs(&[("id", "id"), ("email", "email")])),
    }
}

fn mk_config() -> Config {
    let mut sources = StrMap::new();
    sources.insert("fvp_mysql".to_string(), mk_source());
    let mut entities = StrMap::new();
    entities.insert("Customer".to_string(), mk_entity());
    Config {
        version: 1,
        sources,
        entities,
        bindings: vec![mk_binding()],
        routing: vec![RoutingRule {
            when: RoutingMatch { entity: "Customer".to_string(), action: Some(Action::Read), mode: None },
            target: "fvp_mysql".to_string(),
        }],
    }
}

#[test]
fn compile_happy_path() {
    let compiled = mk_config().compile().unwrap();
    assert_eq!(compiled.entities.len(), 1);
    assert_eq!(compiled.sources.len(), 1);
    assert_eq!(compiled.bindings_for_entity("Customer").len(), 1);
    assert_eq!(compiled.routing.len(), 1);
    assert!(compiled.source("fvp_mysql").is_some());
    assert!(compiled.entity("Customer").is_some());
}

#[test]
fn compile_rejects_unsupported_version() {
    let mut c = mk_config();
    c.version = 9;
    let err = c.compile().unwrap_err();
    assert!(matches!(err, ConfigError::UnsupportedVersion { .. }));
    assert_eq!(err.message(), "unsupported config version 9; supported: 1");
}

#[test]
fn compile_rejects_binding_with_unknown_entity() {
    let mut c = mk_config();
    c.bindings[0].entity = "Frobnicator".to_string();
    let err = c.compile().unwrap_err();
    assert!(matches!(err, ConfigError::UnknownEntityInBinding(ref e) if e == "Frobnicator"));
}

#[test]
fn compile_rejects_binding_with_unknown_source() {
    let mut c = mk_config();
    c.bindings[0].source = "ghost_source".to_string();
    let err = c.compile().unwrap_err();
    assert!(matches!(err, ConfigError::UnknownSourceInBinding(ref s) if s == "ghost_source"));
}

#[test]
fn compile_rejects_binding_with_unknown_field_in_map() {
    let mut c = mk_config();
    c.bindings[0].field_map = FieldMap::from_pairs(pairs(&[("id", "id"), ("nope", "not_a_field")]));
    let err = c.compile().unwrap_err();
    assert!(matches!(
        err,
        ConfigError::UnknownFieldInBinding { ref entity, ref field }
        if entity == "Customer" && field == "nope"
    ));
}

#[test]
fn compile_rejects_routing_to_unknown_target() {
    let mut c = mk_config();
    c.routing[0].target = "ghost".to_string();
    let err = c.compile().unwrap_err();
    assert!(matches!(err, ConfigError::UnknownTargetInRoute(ref s) if s == "ghost"));
}

#[test]
fn compile_rejects_routing_with_unknown_entity() {
    let mut c = mk_config();
    c.routing[0].when.entity = "Phantom".to_string();
    let err = c.compile().unwrap_err();
    assert!(matches!(err, ConfigError::UnknownEntityInRoute(ref s) if s == "Phantom"));
}

#[test]
fn match_with_only_entity_covers_any_action_and_mode() {
    let m = RoutingMatch { entity: "Customer".to_string(), action: None, mode: None };
    assert!(m.covers("Customer", Action::Read, None));
    assert!(m.covers("Customer", Action::Read, Some(Mode::Point)));
    assert!(m.covers("Customer", Action::Append, None));
    assert!(!m.covers("Order", Action::Read, None));
}

#[test]
fn match_with_action_filters() {
    let m = RoutingMatch { entity: "Customer".to_string(), action: Some(Action::Read), mode: None };
    assert!(m.covers("Customer", Action::Read, None));
    assert!(!m.covers("Customer", Action::Append, None));
}

#[test]
fn match_with_mode_filters_only_when_mode_supplied() {
    let m = RoutingMatch { entity: "Customer".to_string(), action: Some(Action::Read), mode: Some(Mode::Point) };
    assert!(m.covers("Customer", Action::Read, Some(Mode::Point)));
    assert!(!m.covers("Customer", Action::Read, Some(Mode::Trend)));
    assert!(!m.covers("Customer", Action::Read, None));
}

#[test]
fn parse_env_ref() {
    let r = SecretRef::parse("${ENV:FOO_BAR}").unwrap();
    assert_eq!(r.env_name(), "FOO_BAR");
}

#[test]
fn parse_rejects_empty_name() {
    let r = SecretRef::parse("${ENV:}");
    assert!(r.is_err());
}

#[test]
fn parse_rejects_raw_value() {
    let r = SecretRef::parse("hunter2");
    assert!(matches!(r, Err(ConfigError::InvalidSecretRef(_))));
}

#[test]
fn resolve_missing_env_var_fails() {
    let r = SecretRef::Env("EH_TEST_DEFINITELY_UNSET_VAR_8d2f".to_string());
    let outcome = r.resolve(None);
    assert!(matches!(outcome, Err(ConfigError::MissingEnvVar(_))));
}

#[test]
fn resolve_present_env_var_succeeds() {
    let r = SecretRef::Env("EH_TEST_PRESENT_8d2f".to_string());
    let s = r.resolve(Some("verysecret".to_string())).unwrap();
    assert_eq!(s.expose(), "verysecret");
}

#[test]
fn resolve_empty_env_var_fails() {
    let r = SecretRef::Env("EH_TEST_EMPTY_8d2f".to_string());
    let outcome = r.resolve(Some(String::new()));
    assert!(matches!(outcome, Err(ConfigError::EmptyEnvVar(_))));
}

#[test]
fn secret_debug_redacts_value() {
    let s = Secret::new("hunter2".to_string());
    assert_eq!(s.debug_repr(), "Secret(***)");
}

#[test]
fn secret_ref_debug_keeps_name_not_value() {
    let r = SecretRef::Env("PGPASSWORD".to_string());
    assert_eq!(r.debug_repr(), "SecretRef::Env(PGPASSWORD)");
}

#[test]
fn secret_ref_renders_back_to_dollar_brace_form() {
    let r = SecretRef::Env("MYVAR".to_string());
    assert_eq!(r.to_ref_string(), "${ENV:MYVAR}");
    let back = SecretRef::parse(&r.to_ref_string()).unwrap();
    assert_eq!(back.env_name(), "MYVAR");
}

#[test]
fn source_kind_string_matches_schema() {
    let cfg = SourceConfig::Mysql(MysqlSourceConfig {
        host: "localhost".into(),
        port: 3306,
        database: "x".into(),
        username: "u".into(),
        password: SecretRef::Env("X".into()),
        ssl_mode: MysqlSslMode::Preferred,
        max_pool_size: 8,
    });
    assert_eq!(cfg.kind(), "mysql");
}

#[test]
fn source_password_debug_redacts() {
    let cfg = MysqlSourceConfig {
        host: "x".into(),
        port: 3306,
        database: "x".into(),
        username: "u".into(),
        password: SecretRef::Env("MYVAR".into()),
        ssl_mode: MysqlSslMode::Preferred,
        max_pool_size: 8,
    };
    let s = format!("{cfg:?}");
    assert!(s.contains("MYVAR"));
    assert!(!s.contains("hunter2"));
}

#[test]
fn source_defaults_are_stable() {
    assert_eq!(default_mysql_port(), 3306);
    assert_eq!(default_pool_size(), 8);
    assert_eq!(MysqlSslMode::default(), MysqlSslMode::Preferred);
}

#[test]
fn load_from_env_without_var_fails_with_no_config_path() {
    let err = config_path(None).unwrap_err();
    assert!(matches!(err, ConfigError::NoConfigPath));
    assert_eq!(err.message(), "EH_CONFIG is not set and no --config path was supplied");
    assert_eq!(EH_CONFIG_ENV, "EH_CONFIG");
    assert_eq!(config_path(Some("/etc/eh.yaml".to_string())).unwrap(), "/etc/eh.yaml");
}

#[test]
fn config_error_messages_quote_names() {
    assert_eq!(
        ConfigError::MissingEnvVar("PW".to_string()).message(),
        "required environment variable \"PW\" is not set (referenced by a config secret); the gateway refuses to start with missing secrets"
    );
    assert_eq!(
        ConfigError::UnknownFieldInBinding { entity: "Customer".to_string(), field: "nope".to_string() }.message(),
        "binding for entity \"Customer\" references unknown field \"nope\" in field_map"
    );
    assert_eq!(ConfigError::InvalidSecretRef("x".to_string()).message(), "invalid secret reference \"x\"; expected form `${ENV:NAME}`");
}

#[test]
fn debug_redacts_password() {
    let cfg = MysqlSourceConfig {
        host: "x".into(),
        port: 3306,
        database: "x".into(),
        username: "u".into(),
        password: SecretRef::Env("X".into()),
        ssl_mode: MysqlSslMode::Preferred,
        max_pool_size: 8,
    };
    let s = format!("{cfg:?}");
    assert!(s.contains("X"));
}

#[test]
fn compiled_config_references_only_declared_names() {
    let cc = mk_config().compile().expect("config should compile");
    let bindings = cc.bindings_for_entity("Customer");
    assert_eq!(bindings.len(), 1);
    for b in bindings {
        let e = cc.entity(&b.entity).expect("binding entity is declared");
        assert!(cc.source(&b.source).is_some());
        for i in 0..b.field_map.mapping.len() {
            let (logical, _) = b.field_map.mapping.entry_at(i);
            assert!(e.field(logical).is_some());
        }
    }
    for r in &cc.routing {
        assert!(cc.entity(&r.when.entity).is_some());
        assert!(cc.source(&r.target).is_some());
    }
}

#[test]
fn parse_accepts_bare_identifier() {
    let r = SecretRef::parse("FOO_BAR").unwrap();
    assert_eq!(r.env_name(), "FOO_BAR");
    assert_eq!(r.to_ref_string(), "${ENV:FOO_BAR}");
    let r = SecretRef::parse("_X9").unwrap();
    assert_eq!(r.env_name(), "_X9");
    for bad in ["foo_bar", "9FOO", "FOO-BAR", "", "FOO BAR"] {
        assert!(matches!(SecretRef::parse(bad), Err(ConfigError::InvalidSecretRef(_))), "{bad:?}");
    }
}

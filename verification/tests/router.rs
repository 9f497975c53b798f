use eventhorizon::config::compiled::CompiledConfig;
use eventhorizon::config::config_file::{Config, EntityFromYaml};
use eventhorizon::config::routing::{RoutingMatch, RoutingRule};
use eventhorizon::config::secret::SecretRef;
use eventhorizon::config::source::{MysqlSourceConfig, MysqlSslMode, SourceConfig};
use eventhorizon::entity::{EntityBinding, EntityField, FieldMap, FieldType, Profile};
use eventhorizon::intent::{Action, Intent, Mode};
use eventhorizon::router::{route, RouterError};
use eventhorizon::strmap::StrMap;

fn customer_entity() -> EntityFromYaml {
    EntityFromYaml {
        fields: vec![EntityField { name: "id".into(), data_type: FieldType::Uuid, nullable: false, pii: false }],
    }
}

fn mysql_source() -> SourceConfig {
    SourceConfig::Mysql(MysqlSourceConfig {
        host: "mysql".into(),
        port: 3306,
        database: "eh_demo".into(),
        username: "eh_service".into(),
        password: SecretRef::Env("FVP_MYSQL_SERVICE_PASSWORD".into()),
        ssl_mode: MysqlSslMode::Preferred,
        max_pool_size: 8,
    })
}

fn config_with(bindings: Vec<EntityBinding>, routing: Vec<RoutingRule>) -> CompiledConfig {
    let mut sources = StrMap::new();
    sources.insert("fvp_mysql".to_string(), mysql_source());
    let mut entities = StrMap::new();
    entities.insert("Customer".to_string(), customer_entity());
    let cfg = Config { version: 1, sources, entities, bindings, routing };
    cfg.compile().expect("config should compile")
}

fn customer_binding(actions: Vec<Action>) -> EntityBinding {
    EntityBinding {
        entity: "Customer".to_string(),
        source: "fvp_mysql".to_string(),
        physical_table: "eh_demo.customers".to_string(),
        profile: Profile::Oltp,
        supported_actions: actions,
        field_map: FieldMap::default(),
    }
}

fn read_intent() -> Intent {
    Intent { action: Action::Read, entity: "Customer".into(), mode: None, fields: None, filter: None, payload: None }
}

#[test]
fn route_happy_path() {
    let cfg = config_with(
        vec![customer_binding(vec![Action::Read])],
        vec![RoutingRule {
            when: RoutingMatch { entity: "Customer".into(), action: Some(Action::Read), mode: None },
            target: "fvp_mysql".into(),
        }],
    );
    let routed = route(&read_intent(), &cfg).unwrap();
    assert_eq!(routed.source_name, "fvp_mysql");
    assert_eq!(routed.binding.entity, "Customer");
    assert_eq!(routed.entity.name, "Customer");
}

#[test]
fn unknown_entity_rejected() {
    let cfg = config_with(vec![], vec![]);
    let mut i = read_intent();
    i.entity = "Phantom".into();
    match route(&i, &cfg) {
        Err(RouterError::UnknownEntity(e)) => assert_eq!(e, "Phantom"),
        other => panic!("expected UnknownEntity, got {other:?}"),
    }
}

#[test]
fn no_matching_route_rejected() {
    let cfg = config_with(vec![customer_binding(vec![Action::Read])], vec![]);
    match route(&read_intent(), &cfg) {
        Err(RouterError::NoRoute { entity, action, .. }) => {
            assert_eq!(entity, "Customer");
            assert_eq!(action, Action::Read);
        }
        other => panic!("expected NoRoute, got {other:?}"),
    }
}

#[test]
fn rule_matching_but_no_binding_rejected() {
    let cfg = config_with(
        vec![],
        vec![RoutingRule {
            when: RoutingMatch { entity: "Customer".into(), action: Some(Action::Read), mode: None },
            target: "fvp_mysql".into(),
        }],
    );
    match route(&read_intent(), &cfg) {
        Err(RouterError::NoBindingForRoute { entity, source_name }) => {
            assert_eq!(entity, "Customer");
            assert_eq!(source_name, "fvp_mysql");
        }
        other => panic!("expected NoBindingForRoute, got {other:?}"),
    }
}

#[test]
fn binding_without_supported_action_is_rejected() {
    let cfg = config_with(
        vec![customer_binding(vec![Action::Read])],
        vec![RoutingRule {
            when: RoutingMatch { entity: "Customer".into(), action: Some(Action::Append), mode: None },
            target: "fvp_mysql".into(),
        }],
    );
    let mut append = read_intent();
    append.action = Action::Append;
    match route(&append, &cfg) {
        Err(RouterError::ActionNotSupported { entity, action, source_name }) => {
            assert_eq!(entity, "Customer");
            assert_eq!(action, Action::Append);
            assert_eq!(source_name, "fvp_mysql");
        }
        other => panic!("expected ActionNotSupported, got {other:?}"),
    }
}

#[test]
fn first_matching_rule_wins() {
    let cfg = config_with(
        vec![customer_binding(vec![Action::Read])],
        vec![
            RoutingRule {
                when: RoutingMatch { entity: "Customer".into(), action: Some(Action::Read), mode: Some(Mode::Point) },
                target: "fvp_mysql".into(),
            },
            RoutingRule {
                when: RoutingMatch { entity: "Customer".into(), action: Some(Action::Read), mode: None },
                target: "fvp_mysql".into(),
            },
        ],
    );
    let routed = route(&read_intent(), &cfg).unwrap();
    assert_eq!(routed.source_name, "fvp_mysql");
}

#[test]
fn router_error_messages_render() {
    let cfg = config_with(vec![customer_binding(vec![Action::Read])], vec![]);
    let e = route(&read_intent(), &cfg).unwrap_err();
    assert_eq!(e.message(), "no routing rule matches entity \"Customer\" action Read mode Some(Point)");
    let cfg = config_with(vec![], vec![]);
    let mut i = read_intent();
    i.entity = "Phantom".into();
    assert_eq!(route(&i, &cfg).unwrap_err().message(), "unknown entity \"Phantom\"");
}

#[test]
fn earlier_rule_to_other_source_wins_over_later_match() {
    let mut sources = StrMap::new();
    sources.insert("fvp_mysql".to_string(), mysql_source());
    sources.insert("replica".to_string(), mysql_source());
    let mut entities = StrMap::new();
    entities.insert("Customer".to_string(), customer_entity());
    let mut replica_binding = customer_binding(vec![Action::Read]);
    replica_binding.source = "replica".to_string();
    let cfg = Config {
        version: 1,
        sources,
        entities,
        bindings: vec![customer_binding(vec![Action::Read]), replica_binding],
        routing: vec![
            RoutingRule {
                when: RoutingMatch { entity: "Customer".into(), action: None, mode: None },
                target: "replica".into(),
            },
            RoutingRule {
                when: RoutingMatch { entity: "Customer".into(), action: Some(Action::Read), mode: None },
                target: "fvp_mysql".into(),
            },
        ],
    }
    .compile()
    .unwrap();
    let routed = route(&read_intent(), &cfg).unwrap();
    assert_eq!(routed.source_name, "replica");
    assert_eq!(routed.binding.source, "replica");
}

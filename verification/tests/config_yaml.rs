use pg_gateway::gateway::config::{
    default_databases, default_listen, default_port, launch_plan, ConfigError, Launch,
};
use pg_gateway::gateway::connection::{admission, AdmissionError};
use pg_gateway::StartupIdentity;
use pg_gateway::strmap::StrMap;
use pg_gateway::{
    DatabaseCluster, GatewayConfig, HostPort, PoolKey, PoolManager, PoolSettings, UserEntry,
};

fn cluster(host: &str, port: u16) -> DatabaseCluster {
    DatabaseCluster {
        primary: HostPort { host: host.to_string(), port },
        replicas: Vec::new(),
        pool: PoolSettings::default(),
    }
}

fn config_with(databases: StrMap<DatabaseCluster>, users: Vec<UserEntry>) -> GatewayConfig {
    GatewayConfig { listen: "127.0.0.1:6432".to_string(), databases, users }
}

#[test]
fn defaults_when_fields_omitted() {
    // Every field omitted: the configuration takes its defaults.
    let config = GatewayConfig::default();
    assert_eq!(config.listen, "127.0.0.1:6432");
    assert!(config.databases.contains_key("postgres"));
    assert_eq!(config.primary_upstream("postgres").unwrap(), "127.0.0.1:5432");
}

#[test]
fn rejects_unknown_database_lookup() {
    let config = GatewayConfig::default();
    assert!(config.primary_upstream("missing").is_err());
}

#[test]
fn user_allowlist() {
    let mut databases = StrMap::new();
    databases.insert("postgres".to_string(), cluster("h", 5432));
    let users = vec![UserEntry {
        name: "alice".to_string(),
        database: "postgres".to_string(),
        password: None,
        pool: PoolSettings::default(),
    }];
    let config = config_with(databases, users);
    config.validate().unwrap();
    assert!(config.allows_client("alice", "postgres"));
    assert!(!config.allows_client("bob", "postgres"));
}

#[test]
fn allow_list_needs_user_and_database_together() {
    let users = vec![UserEntry {
        name: "alice".to_string(),
        database: "postgres".to_string(),
        password: Some("secret".to_string()),
        pool: PoolSettings::default(),
    }];
    let config = config_with(default_databases(), users);
    assert!(!config.allows_client("alice", "other"));
    assert!(!config.allows_client("postgres", "alice"));
}

#[test]
fn empty_allow_list_admits_everyone() {
    let config = GatewayConfig::default();
    assert!(config.allows_client("anyone", "anything"));
}

#[test]
fn upstream_address_joins_host_and_port() {
    let hp = HostPort { host: "db-primary".to_string(), port: 5432 };
    assert_eq!(hp.upstream_addr(), "db-primary:5432");
    let hp = HostPort { host: "10.0.0.7".to_string(), port: 65535 };
    assert_eq!(hp.upstream_addr(), "10.0.0.7:65535");
    let hp = HostPort { host: "h".to_string(), port: 0 };
    assert_eq!(hp.upstream_addr(), "h:0");
}

#[test]
fn defaults_are_local() {
    assert_eq!(default_listen(), "127.0.0.1:6432");
    assert_eq!(default_port(), 5432);
    let databases = default_databases();
    assert_eq!(databases.len(), 1);
    let postgres = databases.get("postgres").unwrap();
    assert_eq!(postgres.primary.host, "127.0.0.1");
    assert_eq!(postgres.primary.port, 5432);
    assert!(postgres.replicas.is_empty());
    assert_eq!(postgres.pool.max_connections, None);
    assert_eq!(postgres.pool.max_idle, None);
}

#[test]
fn validate_requires_a_database() {
    let config = config_with(StrMap::new(), Vec::new());
    assert!(matches!(config.validate(), Err(ConfigError::NoDatabases)));
    assert!(GatewayConfig::default().validate().is_ok());
}

#[test]
fn unknown_database_is_named_in_the_error() {
    let config = GatewayConfig::default();
    match config.cluster("missing") {
        Err(ConfigError::UnknownDatabase(name)) => assert_eq!(name, "missing"),
        _ => panic!("expected an unknown database"),
    }
    match config.replicas("nope") {
        Err(ConfigError::UnknownDatabase(name)) => assert_eq!(name, "nope"),
        _ => panic!("expected an unknown database"),
    }
}

#[test]
fn replicas_of_a_cluster() {
    let mut c = cluster("db-primary", 5432);
    c.replicas.push(HostPort { host: "db-replica".to_string(), port: 5433 });
    c.pool.max_connections = Some(40);
    let mut databases = StrMap::new();
    databases.insert("postgres".to_string(), c);
    let config = config_with(databases, Vec::new());
    let replicas = config.replicas("postgres").unwrap();
    assert_eq!(replicas.len(), 1);
    assert_eq!(replicas[0].upstream_addr(), "db-replica:5433");
    assert_eq!(config.cluster("postgres").unwrap().pool.max_connections, Some(40));
    assert_eq!(config.primary_upstream("postgres").unwrap(), "db-primary:5432");
}

#[test]
fn a_later_insert_replaces_a_database() {
    let mut databases = StrMap::new();
    databases.insert("app".to_string(), cluster("first", 1));
    databases.insert("app".to_string(), cluster("second", 2));
    assert_eq!(databases.len(), 1);
    let config = config_with(databases, Vec::new());
    assert_eq!(config.primary_upstream("app").unwrap(), "second:2");
}

#[test]
fn admission_of_a_client() {
    let users = vec![UserEntry {
        name: "alice".to_string(),
        database: "postgres".to_string(),
        password: None,
        pool: PoolSettings::default(),
    }];
    let config = config_with(default_databases(), users);
    let who = |user: &str, database: &str| StartupIdentity {
        user: user.to_string(),
        database: database.to_string(),
        raw: Vec::new(),
    };
    assert_eq!(admission(&config, &who("alice", "postgres")).unwrap(), "127.0.0.1:5432");
    assert_eq!(
        admission(&config, &who("bob", "postgres")),
        Err(AdmissionError::NotAllowed { user: "bob".to_string(), database: "postgres".to_string() })
    );
    let open = GatewayConfig::default();
    assert_eq!(
        admission(&open, &who("bob", "missing")),
        Err(AdmissionError::UnknownDatabase("missing".to_string()))
    );
}

#[test]
fn launch_from_the_environment() {
    let s = |t: &str| Some(t.to_string());
    assert_eq!(launch_plan(s("/etc/gw.yaml"), s("0.0.0.0:1"), None), Launch::ConfigFile("/etc/gw.yaml".to_string()));
    assert_eq!(launch_plan(None, None, None), Launch::Defaults);
    assert_eq!(
        launch_plan(None, None, s("db:5433")),
        Launch::PassThrough { listen: "127.0.0.1:6432".to_string(), upstream: "db:5433".to_string() }
    );
    assert_eq!(
        launch_plan(None, s("0.0.0.0:7000"), None),
        Launch::PassThrough { listen: "0.0.0.0:7000".to_string(), upstream: "127.0.0.1:5432".to_string() }
    );
}

#[test]
fn pools_exist_only_for_configured_databases() {
    let mut m: PoolManager<u8> = PoolManager::new(GatewayConfig::default());
    assert!(m.pool_for(&PoolKey::new("a", "postgres")).is_ok());
    assert!(m.pool_for(&PoolKey::new("a", "postgres")).is_ok());
    assert!(m.pool_for(&PoolKey::new("a", "other")).is_err());
    assert!(!m.contains(&PoolKey::new("a", "other")));
}

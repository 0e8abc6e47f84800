use pg_gateway::gateway::config::ConfigError;
use pg_gateway::{GatewayConfig, PoolKey, PoolManager};

#[test]
fn pool_keys_compare_by_user_and_database() {
    let a = PoolKey::new("alice", "app");
    assert_eq!(a.user, "alice");
    assert_eq!(a.database, "app");
    assert!(a == PoolKey::new("alice", "app"));
    assert!(a != PoolKey::new("alice", "other"));
    assert!(a.same(&PoolKey::new("alice", "app")));
}

#[test]
fn pools_are_created_towards_the_primary() {
    let mut m: PoolManager<u32> = PoolManager::new(GatewayConfig::default());
    let key = PoolKey::new("alice", "postgres");
    assert!(!m.contains(&key));
    assert_eq!(m.upstream(&key), None);
    m.pool_for(&key).unwrap();
    assert!(m.contains(&key));
    assert_eq!(m.upstream(&key).unwrap(), "127.0.0.1:5432");
}

#[test]
fn unknown_database_gets_no_pool() {
    let mut m: PoolManager<u32> = PoolManager::new(GatewayConfig::default());
    let key = PoolKey::new("alice", "missing");
    match m.pool_for(&key) {
        Err(ConfigError::UnknownDatabase(name)) => assert_eq!(name, "missing"),
        _ => panic!("expected an unknown database"),
    }
    assert!(!m.contains(&key));
    assert!(matches!(m.try_acquire_idle("alice", "missing"), Err(ConfigError::UnknownDatabase(_))));
}

#[test]
fn a_released_connection_is_reused() {
    let mut m: PoolManager<u32> = PoolManager::new(GatewayConfig::default());
    assert_eq!(m.try_acquire_idle("alice", "postgres").unwrap(), None);
    let key = PoolKey::new("alice", "postgres");
    assert_eq!(m.release(&key, 7), None);
    assert_eq!(m.try_acquire_idle("alice", "postgres").unwrap(), Some(7));
    assert_eq!(m.try_acquire_idle("alice", "postgres").unwrap(), None);
}

#[test]
fn the_last_returned_connection_goes_out_first() {
    let mut m: PoolManager<u32> = PoolManager::new(GatewayConfig::default());
    let key = PoolKey::new("alice", "postgres");
    m.pool_for(&key).unwrap();
    m.release(&key, 1);
    m.release(&key, 2);
    assert_eq!(m.take_idle(&key), Some(2));
    assert_eq!(m.take_idle(&key), Some(1));
    assert_eq!(m.take_idle(&key), None);
}

#[test]
fn pools_of_different_keys_are_independent() {
    let mut m: PoolManager<&str> = PoolManager::new(GatewayConfig::default());
    let alice = PoolKey::new("alice", "postgres");
    let bob = PoolKey::new("bob", "postgres");
    m.pool_for(&alice).unwrap();
    m.pool_for(&bob).unwrap();
    m.release(&alice, "a");
    assert_eq!(m.take_idle(&bob), None);
    assert_eq!(m.take_idle(&alice), Some("a"));
}

#[test]
fn release_without_a_pool_hands_the_connection_back() {
    let mut m: PoolManager<u32> = PoolManager::new(GatewayConfig::default());
    let key = PoolKey::new("carol", "postgres");
    assert_eq!(m.release(&key, 9), Some(9));
    assert!(!m.contains(&key));
}

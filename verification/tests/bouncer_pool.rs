use pg_gateway::bouncer::config::{worker_threads_from, Cli, Config, PoolMode};
use pg_gateway::bouncer::pool::{release_keeps, AcquireStep, BackendConn, PoolKey, PoolState};
use pg_gateway::bouncer::protocol::PgMessage;
use pg_gateway::bouncer::session::{
    acquires_at_start, client_greeting, client_step, is_admin_database, paused_notice,
    session_opening, should_release, ClientStep, SessionOpening, TxTracker,
};
use pg_gateway::bouncer::startup::StartupMessage;
use pg_gateway::strmap::StrMap;

fn query(sql: &str) -> PgMessage {
    let mut body = sql.as_bytes().to_vec();
    body.push(0);
    PgMessage { tag: b'Q', body }
}

fn conn(id: u32) -> BackendConn<u32> {
    BackendConn { stream: id, in_transaction: true }
}

#[test]
fn idle_connections_are_reused_oldest_first() {
    let mut p: PoolState<u32> = PoolState::new(2);
    assert!(matches!(p.acquire_step(), AcquireStep::Connect));
    assert!(matches!(p.acquire_step(), AcquireStep::Connect));
    assert_eq!(p.active_count(), 2);
    p.return_idle(conn(1));
    p.return_idle(conn(2));
    assert_eq!(p.idle_count(), 2);
    match p.acquire_step() {
        AcquireStep::Reuse(c) => {
            assert_eq!(c.stream, 1);
            assert!(!c.in_transaction);
        }
        _ => panic!("expected a reuse"),
    }
    match p.acquire_step() {
        AcquireStep::Reuse(c) => assert_eq!(c.stream, 2),
        _ => panic!("expected a reuse"),
    }
    assert_eq!(p.idle_count(), 0);
}

#[test]
fn a_full_pool_makes_clients_wait() {
    let mut p: PoolState<u32> = PoolState::new(1);
    assert!(matches!(p.acquire_step(), AcquireStep::Connect));
    assert!(matches!(p.acquire_step(), AcquireStep::Wait));
    assert_eq!(p.active_count(), 1);
    p.drop_server();
    assert_eq!(p.active_count(), 0);
    p.drop_server();
    assert_eq!(p.active_count(), 0);
    assert!(matches!(p.acquire_step(), AcquireStep::Connect));
}

#[test]
fn a_pool_of_size_zero_never_connects() {
    let mut p: PoolState<u32> = PoolState::new(0);
    assert!(matches!(p.acquire_step(), AcquireStep::Wait));
}

#[test]
fn which_released_connections_are_kept() {
    assert!(!release_keeps(PoolMode::Session, false, false));
    assert!(release_keeps(PoolMode::Transaction, false, false));
    assert!(!release_keeps(PoolMode::Transaction, true, false));
    assert!(release_keeps(PoolMode::Statement, true, false));
    assert!(!release_keeps(PoolMode::Statement, false, true));
}

#[test]
fn when_a_connection_is_released() {
    assert!(!should_release(PoolMode::Session, Some(b'I'), false));
    assert!(should_release(PoolMode::Transaction, Some(b'I'), false));
    assert!(!should_release(PoolMode::Transaction, Some(b'I'), true));
    assert!(!should_release(PoolMode::Transaction, Some(b'T'), false));
    assert!(should_release(PoolMode::Statement, Some(b'I'), true));
    assert!(!should_release(PoolMode::Statement, None, false));
}

#[test]
fn explicit_transaction_holds_the_connection() {
    let mut t = TxTracker::new();
    assert!(!t.explicit_tx);
    let e = t.on_client_message(&query("BEGIN"));
    assert!(e.query && e.transaction);
    assert!(t.explicit_tx);
    let r = t.on_ready(b"I", PoolMode::Transaction);
    assert!(!r.release);
    assert!(r.in_transaction);
    let e = t.on_client_message(&query("COMMIT"));
    assert!(e.query && !e.transaction);
    assert!(!t.explicit_tx);
    let r = t.on_ready(b"I", PoolMode::Transaction);
    assert!(r.release);
    assert!(!r.in_transaction);
}

#[test]
fn ready_status_marks_transactions() {
    let mut t = TxTracker::new();
    let e = t.on_client_message(&PgMessage { tag: b'P', body: vec![] });
    assert!(!e.query && !e.transaction);
    assert!(t.on_ready(b"T", PoolMode::Transaction).in_transaction);
    assert!(t.on_ready(b"E", PoolMode::Transaction).in_transaction);
    let r = t.on_ready(b"", PoolMode::Statement);
    assert!(!r.in_transaction && !r.release);
    t.on_client_message(&query("begin"));
    let r = t.on_ready(b"I", PoolMode::Statement);
    assert!(r.release && r.in_transaction);
    assert!(!t.explicit_tx);
}

#[test]
fn pool_keys_of_a_startup() {
    let mut params = StrMap::new();
    params.insert("user".to_string(), "alice".to_string());
    let s = StartupMessage { params };
    let k = PoolKey::from_startup(&s);
    assert_eq!(k.user, "alice");
    assert_eq!(k.database, "alice");
    assert_eq!(k.id(), "alice/alice");
}

#[test]
fn admin_database_and_greetings() {
    let cfg = Config::with_worker_threads(4);
    let mut params = StrMap::new();
    params.insert("database".to_string(), "pgbouncer".to_string());
    assert!(is_admin_database(&StartupMessage { params }, &cfg));
    assert!(!is_admin_database(&StartupMessage { params: StrMap::new() }, &cfg));
    let n = paused_notice();
    assert_eq!(n.tag, b'E');
    assert_eq!(n.body, b"Mpooler is paused\0\0".to_vec());
    let g = client_greeting(0x1_0000_0002);
    assert_eq!(g.len(), 5);
    assert_eq!(g[0].tag, b'R');
    assert_eq!(g[1].body, b"server_version\x0014.0\x00".to_vec());
    assert_eq!(g[2].body, b"client_encoding\x00UTF8\x00".to_vec());
    assert_eq!(g[3].body, vec![0, 0, 0, 2, 0, 0, 0, 2]);
    assert_eq!(g[4].tag, b'Z');
}

#[test]
fn settings_and_command_line() {
    assert_eq!(worker_threads_from(Some(8)), 8);
    assert_eq!(worker_threads_from(Some(1)), 2);
    assert_eq!(worker_threads_from(None), 4);
    let mut cfg = Config::with_worker_threads(3);
    assert_eq!(cfg.listen_addr, "127.0.0.1:6432");
    assert_eq!(cfg.default_pool_size, 10);
    assert_eq!(cfg.max_client_conn, 200);
    assert_eq!(cfg.pool_mode, PoolMode::Transaction);
    assert_eq!(cfg.backend_addr(), "127.0.0.1:5432");
    let cli = Cli {
        config: None,
        listen_addr: Some("0.0.0.0:7000".to_string()),
        backend_host: None,
        backend_port: Some(6543),
        pool_mode: Some(PoolMode::Session),
    };
    cfg.apply_cli(&cli);
    assert_eq!(cfg.listen_addr, "0.0.0.0:7000");
    assert_eq!(cfg.backend_host, "127.0.0.1");
    assert_eq!(cfg.backend_port, 6543);
    assert_eq!(cfg.pool_mode, PoolMode::Session);
    assert_eq!(cfg.worker_threads, 3);
    assert_eq!(cfg.backend_addr(), "127.0.0.1:6543");
}

#[test]
fn how_a_session_opens() {
    let cfg = Config::with_worker_threads(2);
    let mut admin = StrMap::new();
    admin.insert("database".to_string(), "pgbouncer".to_string());
    let admin = StartupMessage { params: admin };
    assert!(matches!(session_opening(&admin, &cfg, true, 1), SessionOpening::Admin));
    let mut app = StrMap::new();
    app.insert("user".to_string(), "alice".to_string());
    let app = StartupMessage { params: app };
    match session_opening(&app, &cfg, true, 1) {
        SessionOpening::Paused(m) => assert_eq!(m.body, b"Mpooler is paused\0\0".to_vec()),
        _ => panic!("expected the paused notice"),
    }
    match session_opening(&app, &cfg, false, 9) {
        SessionOpening::Greet(msgs) => {
            assert_eq!(msgs.len(), 5);
            assert_eq!(msgs[3].body, vec![0, 0, 0, 9, 0, 0, 0, 9]);
        }
        _ => panic!("expected the greeting"),
    }
}

#[test]
fn client_messages_take_a_connection_when_none_is_held() {
    assert!(acquires_at_start(PoolMode::Session));
    assert!(!acquires_at_start(PoolMode::Transaction));
    assert!(!acquires_at_start(PoolMode::Statement));
    let x = PgMessage { tag: b'X', body: vec![] };
    assert_eq!(client_step(&x, true), ClientStep::Finish);
    assert_eq!(client_step(&x, false), ClientStep::Finish);
    assert_eq!(client_step(&query("BEGIN"), false), ClientStep::AcquireThenForward);
    assert_eq!(client_step(&query("SELECT 1"), true), ClientStep::Forward);
}

use pg_gateway::bouncer::admin::{
    admin_command, admin_greeting, admin_reply, plain_response, pool_mode_name, render_config,
    render_help, render_pools, render_stats, AdminCommand, PoolRow,
};
use pg_gateway::bouncer::config::{Config, PoolMode};
use pg_gateway::bouncer::stats::{Stats, StatsSnapshot};

#[test]
fn console_commands() {
    assert_eq!(admin_command(b"SHOW POOLS;\0"), AdminCommand::ShowPools);
    assert_eq!(admin_command(b"  show stats;;\0"), AdminCommand::ShowStats);
    assert_eq!(admin_command(b"Show Config\0"), AdminCommand::ShowConfig);
    assert_eq!(admin_command(b"show help\0"), AdminCommand::ShowHelp);
    assert_eq!(admin_command(b"RELOAD\0"), AdminCommand::Reload);
    assert_eq!(admin_command(b"pause;\0"), AdminCommand::Pause);
    assert_eq!(admin_command(b"resume\0"), AdminCommand::Resume);
    assert_eq!(admin_command(b"SHOW DATABASES\0"), AdminCommand::Unknown("show databases".to_string()));
}

#[test]
fn fixed_answers() {
    assert_eq!(
        render_help(),
        "SHOW POOLS; SHOW STATS; SHOW CONFIG; SHOW HELP; RELOAD; PAUSE; RESUME;\n"
    );
    assert_eq!(plain_response(&AdminCommand::Reload).unwrap(), "RELOAD\n");
    assert_eq!(plain_response(&AdminCommand::Pause).unwrap(), "PAUSE\n");
    assert_eq!(plain_response(&AdminCommand::Resume).unwrap(), "RESUME\n");
    assert_eq!(plain_response(&AdminCommand::ShowHelp).unwrap(), render_help());
    assert_eq!(
        plain_response(&AdminCommand::Unknown("drop".to_string())).unwrap(),
        "ERROR: unknown admin command: drop\n"
    );
    assert_eq!(plain_response(&AdminCommand::ShowPools), None);
    assert_eq!(plain_response(&AdminCommand::ShowStats), None);
    assert_eq!(plain_response(&AdminCommand::ShowConfig), None);
}

#[test]
fn config_text() {
    let cfg = Config::with_worker_threads(8);
    assert_eq!(
        render_config(&cfg),
        "listen_addr=127.0.0.1:6432\nbackend=127.0.0.1: 5432\npool_mode=Transaction\ndefault_pool_size=10\nmax_client_conn=200\nadmin_database=pgbouncer\nworker_threads=8\n"
    );
}

#[test]
fn stats_text() {
    let st = StatsSnapshot {
        client_connections: 3,
        server_connections: 2,
        queries: 120,
        transactions: 7,
        pooler_errors: 0,
    };
    assert_eq!(
        render_stats(&st, true),
        "total_client_conn=3\ntotal_server_conn=2\ntotal_queries=120\ntotal_transactions=7\ntotal_errors=0\npaused=true\n"
    );
    assert!(render_stats(&st, false).ends_with("paused=false\n"));
}

#[test]
fn snapshot_reads_the_counters() {
    let s = Stats::default();
    s.queries.store(5, std::sync::atomic::Ordering::Relaxed);
    let snap = s.snapshot();
    assert_eq!(snap.queries, 5);
    assert_eq!(snap.client_connections, 0);
}

#[test]
fn pools_text() {
    let rows = vec![
        PoolRow { key: "alice/app".to_string(), active: 1, idle: 2, waiting: 0 },
        PoolRow { key: "bob/app".to_string(), active: 0, idle: 0, waiting: 3 },
    ];
    assert_eq!(
        render_pools(&rows, PoolMode::Statement),
        "database | user | sv_active | sv_idle | sv_waiting | pool_mode\nalice/app | | 1 | 2 | 0 | Statement\nbob/app | | 0 | 0 | 3 | Statement\n"
    );
    assert_eq!(
        render_pools(&[], PoolMode::Session),
        "database | user | sv_active | sv_idle | sv_waiting | pool_mode\n"
    );
    assert_eq!(pool_mode_name(PoolMode::Session), "Session");
}

#[test]
fn console_reply_and_greeting() {
    let msgs = admin_reply("PAUSE\n");
    assert_eq!(msgs.len(), 4);
    assert_eq!(msgs[0].tag, b'T');
    assert_eq!(msgs[1].tag, b'D');
    assert_eq!(msgs[1].body, b"\x00\x01\x00\x00\x00\x05PAUSE".to_vec());
    assert_eq!(msgs[2].tag, b'C');
    assert_eq!(msgs[3].tag, b'Z');
    let g = admin_greeting(7);
    assert_eq!(g.len(), 4);
    assert_eq!(g[1].body, b"server_version\x00pgbouncer-rs\x00".to_vec());
    assert_eq!(g[2].body, vec![0, 0, 0, 7, 0, 0, 0, 0]);
}

#[test]
fn a_space_before_the_semicolons_is_kept() {
    assert_eq!(admin_command(b"show stats ;\0"), AdminCommand::Unknown("show stats ".to_string()));
}

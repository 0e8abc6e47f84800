//! The admin console: the commands it understands and the text it answers.

use vstd::prelude::*;
use crate::bouncer::config::{Config, PoolMode};
use crate::bouncer::protocol::{
    auth_ok, backend_key_data, parameter_status, query_sql, query_sql_spec, ready_for_query_idle, row_description_and_data, data_row,
    result_row_description, select_zero, PgMessage,
};
use crate::bouncer::session::truncate_id;
use crate::bouncer::stats::StatsSnapshot;
use crate::text::{ascii_lower, to_ascii_lowercase, trim_end, trim_end_char, trim_end_matches_char, trim_end_spec};
use crate::wire::{be32, decimal, str_eq, u64_decimal};

verus! {

/// A console command.
#[derive(Debug, Clone, PartialEq, Eq)]
pub enum AdminCommand {
    ShowPools,
    ShowStats,
    ShowConfig,
    ShowHelp,
    Reload,
    Pause,
    Resume,
    /// Anything else, as it was read.
    Unknown(String),
}

/// The command text of a Query payload: its SQL without trailing `;`, lower-cased.
pub open spec fn command_text(body: Seq<u8>) -> Seq<char> {
    ascii_lower(trim_end_char(query_sql_spec(body), ';'))
}

/// The command a text names.
pub open spec fn command_of(text: Seq<char>) -> AdminCommand {
    if text == "show pools"@ {
        AdminCommand::ShowPools
    } else if text == "show stats"@ {
        AdminCommand::ShowStats
    } else if text == "show config"@ {
        AdminCommand::ShowConfig
    } else if text == "show help"@ {
        AdminCommand::ShowHelp
    } else if text == "reload"@ {
        AdminCommand::Reload
    } else if text == "pause"@ {
        AdminCommand::Pause
    } else if text == "resume"@ {
        AdminCommand::Resume
    } else {
        AdminCommand::Unknown(arbitrary())
    }
}

/// Reads the command of a console Query payload.
pub fn admin_command(body: &[u8]) -> (c: AdminCommand)
    ensures
        c matches AdminCommand::Unknown(s) ==> s@ == command_text(body@) && command_of(
            command_text(body@),
        ) is Unknown,
        !(c is Unknown) ==> c == command_of(command_text(body@)),
{
    let sql = to_ascii_lowercase(trim_end_matches_char(query_sql(body), ';'));
    let s = sql.as_str();
    if str_eq(s, "show pools") {
        AdminCommand::ShowPools
    } else if str_eq(s, "show stats") {
        AdminCommand::ShowStats
    } else if str_eq(s, "show config") {
        AdminCommand::ShowConfig
    } else if str_eq(s, "show help") {
        AdminCommand::ShowHelp
    } else if str_eq(s, "reload") {
        AdminCommand::Reload
    } else if str_eq(s, "pause") {
        AdminCommand::Pause
    } else if str_eq(s, "resume") {
        AdminCommand::Resume
    } else {
        AdminCommand::Unknown(sql)
    }
}

/// The name of a pool mode as the console shows it.
pub open spec fn mode_name(mode: PoolMode) -> Seq<char> {
    match mode {
        PoolMode::Session => "Session"@,
        PoolMode::Transaction => "Transaction"@,
        PoolMode::Statement => "Statement"@,
    }
}

/// The name of a pool mode.
pub fn pool_mode_name(mode: PoolMode) -> (s: &'static str)
    ensures
        s@ == mode_name(mode),
{
    match mode {
        PoolMode::Session => "Session",
        PoolMode::Transaction => "Transaction",
        PoolMode::Statement => "Statement",
    }
}

/// `true` or `false`.
pub open spec fn bool_text(b: bool) -> Seq<char> {
    if b {
        "true"@
    } else {
        "false"@
    }
}

/// The answer to SHOW HELP.
pub fn render_help() -> (s: String)
    ensures
        s@ == "SHOW POOLS; SHOW STATS; SHOW CONFIG; SHOW HELP; RELOAD; PAUSE; RESUME;\n"@,
{
    String::from_str("SHOW POOLS; SHOW STATS; SHOW CONFIG; SHOW HELP; RELOAD; PAUSE; RESUME;\n")
}

/// The answer to SHOW CONFIG.
pub open spec fn config_text(cfg: Config) -> Seq<char> {
    "listen_addr="@ + cfg.listen_addr@ + "\nbackend="@ + cfg.backend_host@ + ": "@ + decimal(
        cfg.backend_port as nat,
    ) + "\npool_mode="@ + mode_name(cfg.pool_mode) + "\ndefault_pool_size="@ + decimal(
        cfg.default_pool_size as nat,
    ) + "\nmax_client_conn="@ + decimal(cfg.max_client_conn as nat) + "\nadmin_database="@
        + cfg.admin_database@ + "\nworker_threads="@ + decimal(cfg.worker_threads as nat) + "\n"@
}

/// The settings, one `name=value` per line.
pub fn render_config(cfg: &Config) -> (s: String)
    ensures
        s@ == config_text(*cfg),
{
    let mut s = String::from_str("listen_addr=");
    s.append(cfg.listen_addr.as_str());
    s.append("\nbackend=");
    s.append(cfg.backend_host.as_str());
    s.append(": ");
    s.append(u64_decimal(cfg.backend_port as u64).as_str());
    s.append("\npool_mode=");
    s.append(pool_mode_name(cfg.pool_mode));
    s.append("\ndefault_pool_size=");
    s.append(u64_decimal(cfg.default_pool_size as u64).as_str());
    s.append("\nmax_client_conn=");
    s.append(u64_decimal(cfg.max_client_conn as u64).as_str());
    s.append("\nadmin_database=");
    s.append(cfg.admin_database.as_str());
    s.append("\nworker_threads=");
    s.append(u64_decimal(cfg.worker_threads as u64).as_str());
    s.append("\n");
    s
}

/// The answer to SHOW STATS.
pub open spec fn stats_text(st: StatsSnapshot, paused: bool) -> Seq<char> {
    "total_client_conn="@ + decimal(st.client_connections as nat) + "\ntotal_server_conn="@
        + decimal(st.server_connections as nat) + "\ntotal_queries="@ + decimal(st.queries as nat)
        + "\ntotal_transactions="@ + decimal(st.transactions as nat) + "\ntotal_errors="@ + decimal(
        st.pooler_errors as nat,
    ) + "\npaused="@ + bool_text(paused) + "\n"@
}

/// The global counters and whether the pooler is paused.
pub fn render_stats(st: &StatsSnapshot, paused: bool) -> (s: String)
    ensures
        s@ == stats_text(*st, paused),
{
    let mut s = String::from_str("total_client_conn=");
    s.append(u64_decimal(st.client_connections).as_str());
    s.append("\ntotal_server_conn=");
    s.append(u64_decimal(st.server_connections).as_str());
    s.append("\ntotal_queries=");
    s.append(u64_decimal(st.queries).as_str());
    s.append("\ntotal_transactions=");
    s.append(u64_decimal(st.transactions).as_str());
    s.append("\ntotal_errors=");
    s.append(u64_decimal(st.pooler_errors).as_str());
    s.append("\npaused=");
    s.append(if paused {
        "true"
    } else {
        "false"
    });
    s.append("\n");
    s
}

/// The counters of one pool, as SHOW POOLS lists them.
#[derive(Debug, Clone)]
pub struct PoolRow {
    pub key: String,
    pub active: u64,
    pub idle: u64,
    pub waiting: u64,
}

/// One SHOW POOLS line.
pub open spec fn pool_line(row: PoolRow, mode: PoolMode) -> Seq<char> {
    row.key@ + " | | "@ + decimal(row.active as nat) + " | "@ + decimal(row.idle as nat) + " | "@
        + decimal(row.waiting as nat) + " | "@ + mode_name(mode) + "\n"@
}

/// The SHOW POOLS lines of some pools, in order.
pub open spec fn pool_lines(rows: Seq<PoolRow>, mode: PoolMode) -> Seq<char>
    decreases rows.len(),
{
    if rows.len() == 0 {
        Seq::empty()
    } else {
        pool_lines(rows.drop_last(), mode) + pool_line(rows.last(), mode)
    }
}

/// The SHOW POOLS header.
pub open spec fn pools_header() -> Seq<char> {
    "database | user | sv_active | sv_idle | sv_waiting | pool_mode\n"@
}

/// The answer to SHOW POOLS: a header, then one line per pool.
pub fn render_pools(rows: &[PoolRow], mode: PoolMode) -> (s: String)
    ensures
        s@ == pools_header() + pool_lines(rows@, mode),
{
    let mut s = String::from_str("database | user | sv_active | sv_idle | sv_waiting | pool_mode\n");
    let mut i: usize = 0;
    proof {
        assert(rows@.take(0) =~= Seq::<PoolRow>::empty());
        assert(s@ =~= pools_header() + pool_lines(rows@.take(0), mode));
    }
    while i < rows.len()
        invariant
            i <= rows@.len(),
            s@ == pools_header() + pool_lines(rows@.take(i as int), mode),
        decreases rows@.len() - i,
    {
        let row = &rows[i];
        let ghost before = s@;
        s.append(row.key.as_str());
        s.append(" | | ");
        s.append(u64_decimal(row.active).as_str());
        s.append(" | ");
        s.append(u64_decimal(row.idle).as_str());
        s.append(" | ");
        s.append(u64_decimal(row.waiting).as_str());
        s.append(" | ");
        s.append(pool_mode_name(mode));
        s.append("\n");
        proof {
            assert(rows@.take(i + 1).drop_last() =~= rows@.take(i as int));
            assert(s@ =~= before + pool_line(rows@[i as int], mode));
        }
        i += 1;
    }
    proof {
        assert(rows@.take(rows@.len() as int) =~= rows@);
    }
    s
}

/// The messages that welcome a console client: AuthenticationOk, the
/// server version `pgbouncer-rs`, BackendKeyData (the client id, truncated
/// to 32 bits, and key 0), and ReadyForQuery.
pub fn admin_greeting(client_id: u64) -> (msgs: Vec<PgMessage>)
    ensures
        msgs@.len() == 4,
        msgs@[0].tag == 0x52u8 && msgs@[0].body@ == seq![0u8, 0, 0, 0],
        msgs@[1].tag == 0x53u8 && msgs@[1].body@ == vstd::utf8::encode_utf8("server_version"@)
            + seq![0u8] + vstd::utf8::encode_utf8("pgbouncer-rs"@) + seq![0u8],
        msgs@[2].tag == 0x4bu8 && msgs@[2].body@ == be32(client_id as int) + be32(0),
        msgs@[3].tag == 0x5au8 && msgs@[3].body@ == seq![0x49u8],
{
    let id = truncate_id(client_id);
    let mut msgs = Vec::new();
    msgs.push(auth_ok());
    msgs.push(parameter_status("server_version", "pgbouncer-rs"));
    msgs.push(backend_key_data(id, 0));
    msgs.push(ready_for_query_idle());
    msgs
}

/// The answers that need no state: help, reload, pause, resume and unknown
/// commands; `None` for the commands that show state.
pub fn plain_response(cmd: &AdminCommand) -> (r: Option<String>)
    ensures
        match cmd {
            AdminCommand::ShowPools | AdminCommand::ShowStats | AdminCommand::ShowConfig => r is None,
            AdminCommand::ShowHelp => r matches Some(s) && s@
                == "SHOW POOLS; SHOW STATS; SHOW CONFIG; SHOW HELP; RELOAD; PAUSE; RESUME;\n"@,
            AdminCommand::Reload => r matches Some(s) && s@ == "RELOAD\n"@,
            AdminCommand::Pause => r matches Some(s) && s@ == "PAUSE\n"@,
            AdminCommand::Resume => r matches Some(s) && s@ == "RESUME\n"@,
            AdminCommand::Unknown(sql) => r matches Some(s) && s@ == "ERROR: unknown admin command: "@
                + sql@ + "\n"@,
        },
{
    match cmd {
        AdminCommand::ShowPools | AdminCommand::ShowStats | AdminCommand::ShowConfig => None,
        AdminCommand::ShowHelp => Some(render_help()),
        AdminCommand::Reload => Some(String::from_str("RELOAD\n")),
        AdminCommand::Pause => Some(String::from_str("PAUSE\n")),
        AdminCommand::Resume => Some(String::from_str("RESUME\n")),
        AdminCommand::Unknown(sql) => {
            let mut s = String::from_str("ERROR: unknown admin command: ");
            s.append(sql.as_str());
            s.append("\n");
            Some(s)
        },
    }
}

/// The console's answer to a command: the response text without trailing
/// whitespace as the single `result` row, then ReadyForQuery.
pub fn admin_reply(response: &str) -> (msgs: Vec<PgMessage>)
    ensures
        msgs@.len() == 4,
        msgs@[0].tag == 0x54u8 && msgs@[0].body@ == result_row_description(),
        msgs@[1].tag == 0x44u8 && msgs@[1].body@ == data_row(
            vstd::utf8::encode_utf8(trim_end_spec(response@)),
        ),
        msgs@[2].tag == 0x43u8 && msgs@[2].body@ == select_zero(),
        msgs@[3].tag == 0x5au8 && msgs@[3].body@ == seq![0x49u8],
{
    let text = trim_end(response);
    let rows: [(&str, &str); 1] = [("result", text)];
    let mut msgs = row_description_and_data(rows.as_slice());
    proof {
        assert(rows@[0].1 == text);
        assert(msgs@[0int + 1].tag == 0x44u8);
    }
    msgs.push(ready_for_query_idle());
    msgs
}

} // verus!

//! The decisions of a client session: greeting, transaction tracking, and
//! when its server connection goes back to the pool.

use vstd::prelude::*;
use vstd::utf8::encode_utf8;
use crate::bouncer::config::{Config, PoolMode};
use crate::bouncer::protocol::{
    auth_ok, backend_key_data, begins_transaction, ends_transaction, error_response,
    is_begin_query, is_commit_or_rollback, is_query, is_terminate, parameter_status, ready_for_query_idle,
    ready_for_query_status, PgMessage,
};
use crate::bouncer::startup::{startup_database, StartupMessage};
use crate::wire::{be32, str_eq};

verus! {

/// Whether a ReadyForQuery with transaction status `status` hands the
/// server connection back: never in session mode; in transaction mode when
/// idle (`I`) outside an explicit transaction; in statement mode when idle.
pub open spec fn releases_at(mode: PoolMode, status: Option<u8>, explicit_tx: bool) -> bool {
    match mode {
        PoolMode::Session => false,
        PoolMode::Transaction => status == Some(0x49u8) && !explicit_tx,
        PoolMode::Statement => status == Some(0x49u8),
    }
}

/// Whether the server connection goes back to the pool at this ReadyForQuery.
pub fn should_release(mode: PoolMode, status: Option<u8>, explicit_tx: bool) -> (b: bool)
    ensures
        b == releases_at(mode, status, explicit_tx),
{
    match mode {
        PoolMode::Session => false,
        PoolMode::Transaction => match status {
            Some(s) => s == 0x49u8 && !explicit_tx,
            None => false,
        },
        PoolMode::Statement => match status {
            Some(s) => s == 0x49u8,
            None => false,
        },
    }
}

/// The explicit-transaction flag after a client message: set by a BEGIN,
/// cleared by a COMMIT or ROLLBACK.
pub open spec fn explicit_after(explicit_tx: bool, msg: PgMessage) -> bool {
    if ends_transaction(msg) {
        false
    } else if begins_transaction(msg) {
        true
    } else {
        explicit_tx
    }
}

/// What a client message adds to the statistics.
#[derive(Debug, Clone, Copy, PartialEq, Eq)]
pub struct QueryEffects {
    /// A simple query was sent.
    pub query: bool,
    /// An explicit transaction was opened.
    pub transaction: bool,
}

/// What a ReadyForQuery from the server decides.
#[derive(Debug, Clone, Copy, PartialEq, Eq)]
pub struct ReadyEffects {
    /// The server connection is inside a transaction.
    pub in_transaction: bool,
    /// The server connection goes back to the pool.
    pub release: bool,
}

/// Whether the client has an explicit transaction open.
pub struct TxTracker {
    pub explicit_tx: bool,
}

impl TxTracker {
    /// No transaction open.
    pub fn new() -> (t: Self)
        ensures
            !t.explicit_tx,
    {
        TxTracker { explicit_tx: false }
    }

    /// Notes a client message on its way to the server.
    pub fn on_client_message(&mut self, msg: &PgMessage) -> (e: QueryEffects)
        ensures
            e.query == (msg.tag == 0x51u8),
            e.transaction == begins_transaction(*msg),
            final(self).explicit_tx == explicit_after(old(self).explicit_tx, *msg),
    {
        let mut effects = QueryEffects { query: false, transaction: false };
        if is_query(msg) {
            effects.query = true;
            if is_begin_query(msg) {
                self.explicit_tx = true;
                effects.transaction = true;
            }
            if is_commit_or_rollback(msg) {
                self.explicit_tx = false;
            }
        }
        effects
    }

    /// Notes a ReadyForQuery with payload `body`: the connection is in a
    /// transaction when the server says so (`T` or `E`) or one was opened
    /// explicitly; when the connection is released the explicit flag is cleared.
    pub fn on_ready(&mut self, body: &[u8], mode: PoolMode) -> (e: ReadyEffects)
        ensures
            e.in_transaction == ((body@.len() > 0 && (body@[0] == 0x54u8 || body@[0] == 0x45u8))
                || old(self).explicit_tx),
            e.release == releases_at(
                mode,
                if body@.len() > 0 {
                    Some(body@[0])
                } else {
                    None
                },
                old(self).explicit_tx,
            ),
            final(self).explicit_tx == (old(self).explicit_tx && !e.release),
    {
        let status = ready_for_query_status(body);
        let in_transaction = match status {
            Some(s) => s == 0x54u8 || s == 0x45u8,
            None => false,
        } || self.explicit_tx;
        let release = should_release(mode, status, self.explicit_tx);
        if release {
            self.explicit_tx = false;
        }
        ReadyEffects { in_transaction, release }
    }
}

/// In transaction mode a connection is not released while an explicit
/// transaction is open, even at an idle ReadyForQuery; once COMMIT or
/// ROLLBACK has been seen, the next idle ReadyForQuery releases it.
pub proof fn lemma_explicit_transaction_holds_connection(explicit_tx: bool, begin: PgMessage, end: PgMessage)
    requires
        begins_transaction(begin),
        !ends_transaction(begin),
        ends_transaction(end),
    ensures
        !releases_at(PoolMode::Transaction, Some(0x49u8), explicit_after(explicit_tx, begin)),
        forall|status: Option<u8>|
            !#[trigger] releases_at(PoolMode::Transaction, status, explicit_after(explicit_tx, begin)),
        releases_at(
            PoolMode::Transaction,
            Some(0x49u8),
            explicit_after(explicit_after(explicit_tx, begin), end),
        ),
{
}

/// Whether a session takes a server connection before the client's first
/// message: only in session mode.
pub fn acquires_at_start(mode: PoolMode) -> (b: bool)
    ensures
        b == (mode == PoolMode::Session),
{
    match mode {
        PoolMode::Session => true,
        _ => false,
    }
}

/// What a session does with a message from its client.
#[derive(Debug, Clone, Copy, PartialEq, Eq)]
pub enum ClientStep {
    /// A Terminate: the session ends.
    Finish,
    /// Take a server connection, then forward the message on it.
    AcquireThenForward,
    /// Forward the message on the server connection held.
    Forward,
}

/// The step for a client message: a Terminate ends the session; any other
/// message goes to the server connection held, which is taken first when
/// the session holds none.
pub fn client_step(msg: &PgMessage, holds_backend: bool) -> (s: ClientStep)
    ensures
        msg.tag == 0x58u8 ==> s == ClientStep::Finish,
        msg.tag != 0x58u8 && !holds_backend ==> s == ClientStep::AcquireThenForward,
        msg.tag != 0x58u8 && holds_backend ==> s == ClientStep::Forward,
{
    if is_terminate(msg) {
        ClientStep::Finish
    } else if holds_backend {
        ClientStep::Forward
    } else {
        ClientStep::AcquireThenForward
    }
}

/// Whether a client asked for the admin console database.
pub fn is_admin_database(startup: &StartupMessage, cfg: &Config) -> (b: bool)
    ensures
        b == (startup_database(startup.params@) == cfg.admin_database@),
{
    str_eq(startup.database(), cfg.admin_database.as_str())
}

/// The notice a client gets while the pooler is paused.
pub fn paused_notice() -> (m: PgMessage)
    ensures
        m.tag == 0x45u8,
        m.body@ == seq![0x4du8] + encode_utf8("pooler is paused"@) + seq![0u8, 0u8],
{
    error_response("pooler is paused")
}

/// The messages that welcome a client: AuthenticationOk, the server version
/// and client encoding, BackendKeyData (the client id, truncated to 32
/// bits, as both process id and key), and ReadyForQuery.
pub open spec fn greets(msgs: Seq<PgMessage>, client_id: u64) -> bool {
    &&& msgs.len() == 5
    &&& msgs[0].tag == 0x52u8 && msgs[0].body@ == seq![0u8, 0, 0, 0]
    &&& msgs[1].tag == 0x53u8 && msgs[1].body@ == encode_utf8("server_version"@) + seq![0u8]
        + encode_utf8("14.0"@) + seq![0u8]
    &&& msgs[2].tag == 0x53u8 && msgs[2].body@ == encode_utf8("client_encoding"@) + seq![0u8]
        + encode_utf8("UTF8"@) + seq![0u8]
    &&& msgs[3].tag == 0x4bu8 && msgs[3].body@ == be32(client_id as int) + be32(client_id as int)
    &&& msgs[4].tag == 0x5au8 && msgs[4].body@ == seq![0x49u8]
}

/// The messages that welcome a client.
pub fn client_greeting(client_id: u64) -> (msgs: Vec<PgMessage>)
    ensures
        greets(msgs@, client_id),
{
    let id = truncate_id(client_id);
    let mut msgs = Vec::new();
    msgs.push(auth_ok());
    msgs.push(parameter_status("server_version", "14.0"));
    msgs.push(parameter_status("client_encoding", "UTF8"));
    msgs.push(backend_key_data(id, id));
    msgs.push(ready_for_query_idle());
    msgs
}

/// How a client session opens.
#[derive(Debug)]
pub enum SessionOpening {
    /// The client asked for the admin console.
    Admin,
    /// The pooler is paused: send this notice and end the session.
    Paused(PgMessage),
    /// Send these messages, then serve the client's queries.
    Greet(Vec<PgMessage>),
}

/// The opening of a session: the admin console for its database, else a
/// notice while the pooler is paused, else the greeting.
pub fn session_opening(startup: &StartupMessage, cfg: &Config, paused: bool, client_id: u64) -> (o:
    SessionOpening)
    ensures
        startup_database(startup.params@) == cfg.admin_database@ ==> o is Admin,
        startup_database(startup.params@) != cfg.admin_database@ && paused ==> (o matches SessionOpening::Paused(m)
            && m.tag == 0x45u8 && m.body@ == seq![0x4du8] + encode_utf8("pooler is paused"@)
            + seq![0u8, 0u8]),
        startup_database(startup.params@) != cfg.admin_database@ && !paused ==> (o matches SessionOpening::Greet(msgs)
            && greets(msgs@, client_id)),
{
    if is_admin_database(startup, cfg) {
        SessionOpening::Admin
    } else if paused {
        SessionOpening::Paused(paused_notice())
    } else {
        SessionOpening::Greet(client_greeting(client_id))
    }
}

/// The low 32 bits of a client id, as a signed integer.
pub(crate) fn truncate_id(client_id: u64) -> (id: i32)
    ensures
        be32(id as int) == be32(client_id as int),
{
    let low: u64 = client_id % 0x1_0000_0000;
    let id: i32 = if low < 0x8000_0000 {
        low as i32
    } else {
        ((low as i64) - 0x1_0000_0000i64) as i32
    };
    proof {
        assert(id as int % 0x1_0000_0000 == client_id as int % 0x1_0000_0000);
    }
    id
}

/// A server connection goes back to the pool only at an idle
/// ReadyForQuery (`I`): never in session mode, at every idle one in
/// statement mode, and in transaction mode at an idle one outside an
/// explicit transaction.  In particular it is never released while the
/// server reports a transaction block (`T`) or a failed one (`E`).
pub proof fn lemma_release_only_when_idle(mode: PoolMode, status: Option<u8>, explicit_tx: bool)
    ensures
        releases_at(mode, status, explicit_tx) ==> status == Some(0x49u8),
        !releases_at(mode, Some(0x54u8), explicit_tx),
        !releases_at(mode, Some(0x45u8), explicit_tx),
        !releases_at(mode, None, explicit_tx),
        mode == PoolMode::Session ==> !releases_at(mode, status, explicit_tx),
        mode == PoolMode::Statement ==> (releases_at(mode, status, explicit_tx) <==> status == Some(
            0x49u8,
        )),
        mode == PoolMode::Transaction ==> (releases_at(mode, status, explicit_tx) <==> (status
            == Some(0x49u8) && !explicit_tx)),
{
}

} // verus!

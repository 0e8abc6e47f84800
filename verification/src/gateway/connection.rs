//! Decisions of the gateway's client and upstream connections: the startup
//! negotiation, the client's identity, the authentication exchange, and the
//! end of a relayed session.

use vstd::prelude::*;
use crate::gateway::config::{user_listed, ConfigError, GatewayConfig};
use crate::gateway::pool::upstream_of_database;
use crate::gateway::startup_parse::{parse_startup_params, startup_params};
use crate::protocol::error::ProtocolError;
use crate::protocol::frame::{tagged_bytes, BackendMessage, push_tagged};
use crate::protocol::relay::RelayOutcome;
use crate::protocol::startup::StartupRequest;
use crate::wire::{be_i32_at, read_be_i32};

verus! {

/// Who a client says it is, with the startup packet it sent.
#[derive(Debug, Clone, PartialEq, Eq)]
pub struct StartupIdentity {
    pub user: String,
    pub database: String,
    pub raw: Vec<u8>,
}

/// Why a client's startup is refused.
#[derive(Debug, Clone, PartialEq, Eq)]
pub enum StartupError {
    /// The startup packet names no `user`.
    MissingUser,
    /// The client asked to cancel a query on the main listener.
    CancelNotSupported,
}

/// What to do with one startup-phase request of a client.
#[derive(Debug, Clone, PartialEq, Eq)]
pub enum NegotiationStep {
    /// Answer `N` to an SSL request and read the next request.
    RejectSsl,
    /// Answer `N` to a GSSAPI encryption request and read the next request.
    RejectGssEnc,
    /// The client sent its startup packet: the negotiation is over.
    Ready(Vec<u8>),
    /// The session ends with this error.
    Refuse(StartupError),
}

/// The next step of the startup negotiation: encryption requests are
/// declined, a cancel request is refused, a startup packet ends it.
pub fn negotiation_step(request: StartupRequest) -> (s: NegotiationStep)
    ensures
        match request {
            StartupRequest::SslRequest => s is RejectSsl,
            StartupRequest::GssEncRequest => s is RejectGssEnc,
            StartupRequest::Startup(raw) => s matches NegotiationStep::Ready(r) && r@ == raw@,
            StartupRequest::CancelRequest(_) => s == NegotiationStep::Refuse(
                StartupError::CancelNotSupported,
            ),
        },
{
    match request {
        StartupRequest::SslRequest => NegotiationStep::RejectSsl,
        StartupRequest::GssEncRequest => NegotiationStep::RejectGssEnc,
        StartupRequest::Startup(raw) => NegotiationStep::Ready(raw),
        StartupRequest::CancelRequest(_) => NegotiationStep::Refuse(
            StartupError::CancelNotSupported,
        ),
    }
}

/// The database a client connects to: the one it names, else its user name.
pub open spec fn identity_database(params: Map<Seq<char>, Seq<char>>) -> Seq<char> {
    if params.contains_key("database"@) {
        params["database"@]
    } else {
        params["user"@]
    }
}

/// The identity a startup packet announces: its `user` (required) and its
/// `database`, which defaults to the user name.
pub fn startup_identity(raw: Vec<u8>) -> (r: Result<StartupIdentity, StartupError>)
    ensures
        r is Ok <==> startup_params(raw@).contains_key("user"@),
        r matches Err(e) ==> e is MissingUser,
        r matches Ok(id) ==> {
            &&& id.user@ == startup_params(raw@)["user"@]
            &&& id.database@ == identity_database(startup_params(raw@))
            &&& id.raw@ == raw@
        },
{
    let params = parse_startup_params(raw.as_slice());
    let user = match params.get("user") {
        Some(u) => u.clone(),
        None => return Err(StartupError::MissingUser),
    };
    let database = match params.get("database") {
        Some(d) => d.clone(),
        None => user.clone(),
    };
    Ok(StartupIdentity { user, database, raw })
}

/// Why a client with a valid startup is not served.
#[derive(Debug, Clone, PartialEq, Eq)]
pub enum AdmissionError {
    /// The allow-list has no entry for this user and database.
    NotAllowed { user: String, database: String },
    /// The database is not configured.
    UnknownDatabase(String),
}

/// Whether the configuration admits a client: the allow-list must admit it,
/// and its database must be configured; the answer is then the address of
/// that database's primary.
pub fn admission(config: &GatewayConfig, identity: &StartupIdentity) -> (r: Result<String, AdmissionError>)
    ensures
        !(config.users@.len() == 0 || user_listed(config.users@, identity.user@, identity.database@))
            ==> (r matches Err(AdmissionError::NotAllowed { user, database }) && user@
            == identity.user@ && database@ == identity.database@),
        (config.users@.len() == 0 || user_listed(config.users@, identity.user@, identity.database@))
            && !config.databases@.contains_key(identity.database@) ==> (r matches Err(
            AdmissionError::UnknownDatabase(name),
        ) && name@ == identity.database@),
        (config.users@.len() == 0 || user_listed(config.users@, identity.user@, identity.database@))
            && config.databases@.contains_key(identity.database@) ==> (r matches Ok(upstream)
            && upstream@ == upstream_of_database(*config, identity.database@)),
{
    if !config.allows_client(identity.user.as_str(), identity.database.as_str()) {
        return Err(
            AdmissionError::NotAllowed {
                user: identity.user.clone(),
                database: identity.database.clone(),
            },
        );
    }
    match config.primary_upstream(identity.database.as_str()) {
        Ok(upstream) => Ok(upstream),
        Err(ConfigError::UnknownDatabase(name)) => Err(AdmissionError::UnknownDatabase(name)),
        Err(ConfigError::NoDatabases) => Err(AdmissionError::UnknownDatabase(identity.database.clone())),
    }
}

/// Whether an upstream message is an authentication request that needs an
/// answer from the client: an `R` message whose request code (bytes 5..9)
/// is neither 0 (AuthenticationOk) nor 12 (SASLFinal, which the client
/// reads without answering).
pub open spec fn needs_password(raw: Seq<u8>) -> bool {
    raw.len() >= 9 && raw[0] == 0x52u8 && be_i32_at(raw, 5) != 0 && be_i32_at(raw, 5) != 12
}

/// Whether an upstream message asks the client for a password or another
/// authentication answer.
pub fn auth_request_needs_password(raw: &[u8]) -> (b: bool)
    ensures
        b == needs_password(raw@),
{
    if raw.len() < 9 || raw[0] != 0x52u8 {
        return false;
    }
    let auth_type = read_be_i32(raw, 5);
    auth_type != 0 && auth_type != 12
}

/// What the authentication relay does after passing an upstream message to the client.
#[derive(Debug, Clone, Copy, PartialEq, Eq)]
pub enum AuthStep {
    /// ReadyForQuery: authentication is complete.
    Complete,
    /// ErrorResponse: the upstream refused the client.
    Rejected,
    /// Read one message from the client and pass it upstream, then go on.
    ForwardClientMessage,
    /// Go on reading upstream messages.
    Continue,
}

/// The next step of relaying authentication between a client and its upstream.
pub fn auth_step(message: &BackendMessage) -> (s: AuthStep)
    requires
        message.raw@.len() >= 1,
    ensures
        s == (if message.raw@[0] == 0x5au8 {
            AuthStep::Complete
        } else if message.raw@[0] == 0x45u8 {
            AuthStep::Rejected
        } else if needs_password(message.raw@) {
            AuthStep::ForwardClientMessage
        } else {
            AuthStep::Continue
        }),
{
    let tag = message.tag();
    if tag == 0x5au8 {
        AuthStep::Complete
    } else if tag == 0x45u8 {
        AuthStep::Rejected
    } else if auth_request_needs_password(message.raw.as_slice()) {
        AuthStep::ForwardClientMessage
    } else {
        AuthStep::Continue
    }
}

/// How an upstream message ends a wait for ReadyForQuery.
#[derive(Debug, Clone, Copy, PartialEq, Eq)]
pub enum ReplyStep {
    /// ReadyForQuery (`Z`): the wait is over.
    Ready,
    /// ErrorResponse (`E`): the wait fails.
    Failed,
    /// Any other message: keep reading.
    Continue,
}

/// Classifies an upstream message while waiting for ReadyForQuery.
pub fn reply_step(tag: u8) -> (s: ReplyStep)
    ensures
        s == (if tag == 0x5au8 {
            ReplyStep::Ready
        } else if tag == 0x45u8 {
            ReplyStep::Failed
        } else {
            ReplyStep::Continue
        }),
{
    if tag == 0x5au8 {
        ReplyStep::Ready
    } else if tag == 0x45u8 {
        ReplyStep::Failed
    } else {
        ReplyStep::Continue
    }
}

/// A simple-query message (`Q`) carrying `sql` and its NUL terminator.
pub fn frontend_query(sql: &[u8]) -> (out: Vec<u8>)
    ensures
        out@ == tagged_bytes(0x51u8, sql@.push(0u8)),
{
    let mut body: Vec<u8> = Vec::new();
    crate::wire::push_bytes(&mut body, sql);
    body.push(0);
    let mut out: Vec<u8> = Vec::new();
    push_tagged(&mut out, 0x51u8, body.as_slice());
    proof {
        assert(body@ =~= sql@.push(0u8));
        assert(out@ =~= tagged_bytes(0x51u8, sql@.push(0u8)));
    }
    out
}

/// The query a pooled connection runs before it goes back to the idle list.
pub fn discard_all_query() -> (out: Vec<u8>)
    ensures
        out@ == tagged_bytes(
            0x51u8,
            seq![0x44u8, 0x49, 0x53, 0x43, 0x41, 0x52, 0x44, 0x20, 0x41, 0x4c, 0x4c, 0x00],
        ),
{
    let sql: [u8; 11] = [0x44, 0x49, 0x53, 0x43, 0x41, 0x52, 0x44, 0x20, 0x41, 0x4c, 0x4c];
    let out = frontend_query(sql.as_slice());
    proof {
        assert(sql@.push(0u8) =~= seq![
            0x44u8, 0x49, 0x53, 0x43, 0x41, 0x52, 0x44, 0x20, 0x41, 0x4c, 0x4c, 0x00,
        ]);
    }
    out
}

/// What the gateway does once a relayed session is over.
#[derive(Debug)]
pub enum AfterRelay {
    /// The client left: close the write side towards the upstream.
    ShutdownUpstream,
    /// The upstream left: close the write side towards the client.
    ShutdownClient,
    /// The stream ended mid-message: nothing more to do.
    Nothing,
    /// The session ends with this error.
    Fail(ProtocolError),
}

/// The clean-up after a relayed session, from how the relay ended.
pub fn after_relay(result: Result<RelayOutcome, ProtocolError>) -> (a: AfterRelay)
    ensures
        match result {
            Ok(RelayOutcome::ClientClosed) => a is ShutdownUpstream,
            Ok(RelayOutcome::ServerClosed) => a is ShutdownClient,
            Err(ProtocolError::UnexpectedEof) => a is Nothing,
            Err(e) => a == AfterRelay::Fail(e),
        },
{
    match result {
        Ok(RelayOutcome::ClientClosed) => AfterRelay::ShutdownUpstream,
        Ok(RelayOutcome::ServerClosed) => AfterRelay::ShutdownClient,
        Err(ProtocolError::UnexpectedEof) => AfterRelay::Nothing,
        Err(error) => AfterRelay::Fail(error),
    }
}

/// The clean-up after a session relayed to a pooled upstream: when the
/// client left, the upstream is kept open so that it can be reset and
/// reused; otherwise as for any relayed session.
pub fn after_pooled_relay(result: Result<RelayOutcome, ProtocolError>) -> (a: AfterRelay)
    ensures
        match result {
            Ok(RelayOutcome::ClientClosed) => a is Nothing,
            Ok(RelayOutcome::ServerClosed) => a is ShutdownClient,
            Err(ProtocolError::UnexpectedEof) => a is Nothing,
            Err(e) => a == AfterRelay::Fail(e),
        },
{
    match result {
        Ok(RelayOutcome::ClientClosed) => AfterRelay::Nothing,
        other => after_relay(other),
    }
}

} // verus!

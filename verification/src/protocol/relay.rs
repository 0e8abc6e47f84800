//! Decisions of the two relay directions of a proxied session.

use vstd::prelude::*;
use crate::protocol::error::ProtocolError;
use crate::protocol::frame::{BackendMessage, FrontendMessage};

verus! {

/// Which side ended a relayed session.
#[derive(Debug, Clone, Copy, PartialEq, Eq)]
pub enum RelayOutcome {
    ClientClosed,
    ServerClosed,
}

/// The relay direction that finished first.
#[derive(Debug, Clone, Copy, PartialEq, Eq)]
pub enum RelayDirection {
    ClientToServer,
    ServerToClient,
}

/// What the server-to-client direction does with the result of one read.
#[derive(Debug)]
pub enum BackendRelayStep {
    /// Write this message to the client and keep going.
    Forward(BackendMessage),
    /// The server closed its side: the direction ends cleanly.
    Finished,
    /// The direction ends with this error.
    Failed(ProtocolError),
}

/// A client message is forwarded in every case; a Terminate (`X`) is the
/// last one the client-to-server direction forwards.
pub fn ends_client_stream(message: &FrontendMessage) -> (b: bool)
    requires
        message.raw@.len() >= 1,
    ensures
        b == (message.raw@[0] == 0x58u8),
{
    message.tag() == 0x58u8
}

/// What the client-to-server direction does with a client message.
#[derive(Debug, Clone, Copy, PartialEq, Eq)]
pub enum ClientRelayStep {
    /// Write it to the server and keep going.
    Forward,
    /// Write it to the server; the direction then ends.
    ForwardAndEnd,
    /// The direction ends without writing it.
    EndHere,
}

/// The client-to-server step for a message: anything but a Terminate (`X`)
/// is forwarded.  A Terminate ends the direction; it is forwarded when the
/// server session ends with the client, and held back when the server
/// connection is pooled, so that the server session stays open for the
/// next client.
pub fn client_relay_step(message: &FrontendMessage, pooled: bool) -> (s: ClientRelayStep)
    requires
        message.raw@.len() >= 1,
    ensures
        message.raw@[0] != 0x58u8 ==> s == ClientRelayStep::Forward,
        message.raw@[0] == 0x58u8 && !pooled ==> s == ClientRelayStep::ForwardAndEnd,
        message.raw@[0] == 0x58u8 && pooled ==> s == ClientRelayStep::EndHere,
{
    if !ends_client_stream(message) {
        ClientRelayStep::Forward
    } else if pooled {
        ClientRelayStep::EndHere
    } else {
        ClientRelayStep::ForwardAndEnd
    }
}

/// The server-to-client direction forwards every message, ends cleanly when
/// the server stream ends, and stops on any other error.
pub fn backend_relay_step(read: Result<BackendMessage, ProtocolError>) -> (s: BackendRelayStep)
    ensures
        match read {
            Ok(m) => s == BackendRelayStep::Forward(m),
            Err(ProtocolError::UnexpectedEof) => s is Finished,
            Err(e) => s == BackendRelayStep::Failed(e),
        },
{
    match read {
        Ok(message) => BackendRelayStep::Forward(message),
        Err(ProtocolError::UnexpectedEof) => BackendRelayStep::Finished,
        Err(error) => BackendRelayStep::Failed(error),
    }
}

/// The outcome of a session from the direction that finished first: its
/// error, or the side that closed.
pub fn relay_session_outcome(first: RelayDirection, result: Result<(), ProtocolError>) -> (r: Result<
    RelayOutcome,
    ProtocolError,
>)
    ensures
        match result {
            Err(e) => r == Err::<RelayOutcome, ProtocolError>(e),
            Ok(()) => r == Ok::<RelayOutcome, ProtocolError>(
                match first {
                    RelayDirection::ClientToServer => RelayOutcome::ClientClosed,
                    RelayDirection::ServerToClient => RelayOutcome::ServerClosed,
                },
            ),
        },
{
    match result {
        Err(error) => Err(error),
        Ok(()) => match first {
            RelayDirection::ClientToServer => Ok(RelayOutcome::ClientClosed),
            RelayDirection::ServerToClient => Ok(RelayOutcome::ServerClosed),
        },
    }
}

} // verus!

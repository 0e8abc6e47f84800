//! The startup phase: length-prefixed packets without a type byte, whose
//! second word is a protocol version or a special request code.

use vstd::prelude::*;
use crate::protocol::error::ProtocolError;
use crate::wire::{be_i32_at, read_be_i32};

verus! {

/// Protocol code of an SSL negotiation request.
pub const SSL_REQUEST_CODE: i32 = 80877103;

/// Protocol code of a GSSAPI encryption request.
pub const GSSENC_REQUEST_CODE: i32 = 80877104;

/// Protocol code of a query cancellation request.
pub const CANCEL_REQUEST_CODE: i32 = 80877102;

/// First message(s) from a client before the normal frontend message stream.
#[derive(Debug, Clone, PartialEq, Eq)]
pub enum StartupRequest {
    SslRequest,
    GssEncRequest,
    /// Full on-wire startup packet (length prefix + protocol version + parameters).
    Startup(Vec<u8>),
    CancelRequest(Vec<u8>),
}

/// The protocol code (bytes 4..8) of a startup packet; packets shorter than
/// eight bytes have none.
pub fn startup_code(raw: &[u8]) -> (r: Result<i32, ProtocolError>)
    ensures
        raw@.len() < 8 <==> r is Err,
        r matches Err(e) ==> e is StartupTooShort,
        r matches Ok(c) ==> c == be_i32_at(raw@, 4),
{
    if raw.len() < 8 {
        return Err(ProtocolError::StartupTooShort);
    }
    Ok(read_be_i32(raw, 4))
}

/// The length announced by the four-byte prefix of a startup packet, which
/// counts the prefix itself; a packet must hold at least its length and code.
pub fn startup_packet_len(prefix: &[u8]) -> (r: Result<usize, ProtocolError>)
    requires
        prefix@.len() >= 4,
    ensures
        be_i32_at(prefix@, 0) < 8 <==> r is Err,
        r matches Err(e) ==> e == ProtocolError::InvalidLength(be_i32_at(prefix@, 0) as i32),
        r matches Ok(n) ==> n == be_i32_at(prefix@, 0),
{
    let len = read_be_i32(prefix, 0);
    if len < 8 {
        return Err(ProtocolError::InvalidLength(len));
    }
    Ok(len as usize)
}

/// What a complete startup packet `raw` asks for, by its protocol code.
pub open spec fn startup_kind(raw: Seq<u8>) -> int {
    be_i32_at(raw, 4)
}

/// Sorts a complete startup packet by its protocol code: SSL and GSSAPI
/// requests, a cancellation (kept whole), or an ordinary startup (kept whole).
pub fn classify_startup(raw: Vec<u8>) -> (r: Result<StartupRequest, ProtocolError>)
    ensures
        raw@.len() < 8 <==> r is Err,
        r matches Err(e) ==> e is StartupTooShort,
        r matches Ok(req) ==> match req {
            StartupRequest::SslRequest => startup_kind(raw@) == SSL_REQUEST_CODE,
            StartupRequest::GssEncRequest => startup_kind(raw@) == GSSENC_REQUEST_CODE,
            StartupRequest::CancelRequest(bytes) => startup_kind(raw@) == CANCEL_REQUEST_CODE
                && bytes@ == raw@,
            StartupRequest::Startup(bytes) => startup_kind(raw@) != SSL_REQUEST_CODE
                && startup_kind(raw@) != GSSENC_REQUEST_CODE && startup_kind(raw@)
                != CANCEL_REQUEST_CODE && bytes@ == raw@,
        },
{
    let code = startup_code(&raw)?;
    if code == SSL_REQUEST_CODE {
        Ok(StartupRequest::SslRequest)
    } else if code == GSSENC_REQUEST_CODE {
        Ok(StartupRequest::GssEncRequest)
    } else if code == CANCEL_REQUEST_CODE {
        Ok(StartupRequest::CancelRequest(raw))
    } else {
        Ok(StartupRequest::Startup(raw))
    }
}

/// The one-byte answer to an SSL request: `S` to accept, `N` to refuse.
pub fn ssl_response_byte(allow: bool) -> (b: u8)
    ensures
        b == (if allow { 0x53u8 } else { 0x4eu8 }),
{
    if allow {
        0x53u8
    } else {
        0x4eu8
    }
}

/// The one-byte answer to a GSSAPI encryption request, which uses the same
/// bytes as the SSL answer.
pub fn gssenc_response_byte(allow: bool) -> (b: u8)
    ensures
        b == (if allow { 0x53u8 } else { 0x4eu8 }),
{
    ssl_response_byte(allow)
}

} // verus!

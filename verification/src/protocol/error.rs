//! Errors of the wire protocol layer.

use vstd::prelude::*;

verus! {

#[verifier::external_type_specification]
#[verifier::external_body]
pub struct ExIoError(std::io::Error);

/// What can go wrong while reading or writing protocol messages.
#[derive(Debug)]
pub enum ProtocolError {
    /// The peer closed the connection in the middle of a message.
    UnexpectedEof,
    /// A length field announced fewer bytes than its own header.
    InvalidLength(i32),
    /// A startup packet too short to hold its protocol code.
    StartupTooShort,
    /// Any other transport failure.
    Io(std::io::Error),
}

/// Tells whether an I/O error is an end of stream in the middle of a read
/// (`std::io::Error::kind` compared with `ErrorKind::UnexpectedEof`).
/// Nothing is claimed of the answer.
#[verifier::external_body]
fn is_unexpected_eof(err: &std::io::Error) -> bool {
    err.kind() == std::io::ErrorKind::UnexpectedEof
}

/// The protocol error for a transport error, given whether that error is
/// an early end of stream.
pub fn eof_or_io(early_end: bool, err: std::io::Error) -> (e: ProtocolError)
    ensures
        early_end ==> e is UnexpectedEof,
        !early_end ==> e == ProtocolError::Io(err),
{
    if early_end {
        ProtocolError::UnexpectedEof
    } else {
        ProtocolError::Io(err)
    }
}

/// Classifies a transport error: an early end of stream becomes
/// `UnexpectedEof`, any other error is kept as `Io`.  Which of the two
/// comes out depends on the error's kind, which `std::io::Error` keeps to
/// itself; `eof_or_io` states the result exactly for a given kind.
pub fn map_eof(err: std::io::Error) -> (e: ProtocolError)
    ensures
        e is UnexpectedEof || e == ProtocolError::Io(err),
{
    let early_end = is_unexpected_eof(&err);
    eof_or_io(early_end, err)
}

} // verus!

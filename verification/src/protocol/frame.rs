//! Tagged messages: one type byte, a big-endian length that counts itself
//! and the body, then the body.

use vstd::prelude::*;
use crate::protocol::error::ProtocolError;
use crate::wire::{be32, be_i32_at, lemma_be32_signed_roundtrip, push_len_prefixed, read_be_i32};

verus! {

/// The on-wire bytes of a tagged message with type byte `tag` and payload `body`.
pub open spec fn tagged_bytes(tag: u8, body: Seq<u8>) -> Seq<u8> {
    seq![tag] + be32(body.len() + 4int) + body
}

/// The length field of a tagged message header (bytes 1..5).
pub open spec fn header_length(header: Seq<u8>) -> int {
    be_i32_at(header, 1)
}

/// A complete frontend (client to server) message, including the type tag and length.
#[derive(Debug, Clone, PartialEq, Eq)]
pub struct FrontendMessage {
    pub raw: Vec<u8>,
}

impl FrontendMessage {
    /// The message type byte.
    pub fn tag(&self) -> (t: u8)
        requires
            self.raw@.len() >= 1,
        ensures
            t == self.raw@[0],
    {
        self.raw[0]
    }
}

/// A complete backend (server to client) message, including the type tag and length.
#[derive(Debug, Clone, PartialEq, Eq)]
pub struct BackendMessage {
    pub raw: Vec<u8>,
}

impl BackendMessage {
    /// The message type byte.
    pub fn tag(&self) -> (t: u8)
        requires
            self.raw@.len() >= 1,
        ensures
            t == self.raw@[0],
    {
        self.raw[0]
    }
}

/// From the five header bytes of a tagged message, the number of bytes the
/// whole message occupies on the wire (type byte included).  A length field
/// below 4 is refused.
pub fn tagged_message_len(header: &[u8]) -> (r: Result<usize, ProtocolError>)
    requires
        header@.len() >= 5,
    ensures
        header_length(header@) < 4 <==> r is Err,
        r matches Err(e) ==> e == ProtocolError::InvalidLength(header_length(header@) as i32),
        r matches Ok(n) ==> n == 1 + header_length(header@),
{
    let len = read_be_i32(header, 1);
    if len < 4 {
        return Err(ProtocolError::InvalidLength(len));
    }
    Ok(1 + len as usize)
}

/// Appends the on-wire form of a tagged message.  The length field is the
/// body length plus four, taken modulo 2^32.
pub fn push_tagged(out: &mut Vec<u8>, tag: u8, body: &[u8])
    ensures
        final(out)@ == old(out)@ + tagged_bytes(tag, body@),
{
    out.push(tag);
    push_len_prefixed(out, body);
    proof {
        assert(final(out)@ =~= old(out)@ + tagged_bytes(tag, body@));
    }
}

/// A message that fits the signed length field is read back whole: its
/// header announces exactly its own length.
pub proof fn lemma_tagged_roundtrip(tag: u8, body: Seq<u8>)
    requires
        body.len() + 4 < 0x8000_0000,
    ensures
        header_length(tagged_bytes(tag, body)) == body.len() + 4,
        1 + header_length(tagged_bytes(tag, body)) == tagged_bytes(tag, body).len(),
        tagged_bytes(tag, body)[0] == tag,
        tagged_bytes(tag, body).skip(5) == body,
{
    let m = tagged_bytes(tag, body);
    lemma_be32_signed_roundtrip(body.len() + 4int);
    assert(m.subrange(1, 5) =~= be32(body.len() + 4int));
    assert(be_i32_at(m, 1) == be_i32_at(be32(body.len() + 4int), 0));
    assert(m.skip(5) =~= body);
}

} // verus!

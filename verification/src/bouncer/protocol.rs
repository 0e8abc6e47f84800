//! The messages the pooler reads and writes, and what it reads in them.

use vstd::prelude::*;
use vstd::string::StringSliceAdditionalSpecFns;
use vstd::utf8::{decode_utf8, encode_utf8, valid_utf8};
use crate::protocol::frame::{push_tagged, tagged_bytes};
use crate::wire::{be16, be32, be_u32_value, find_byte, first_byte_at, push_be_i16, push_be_i32, push_bytes};
use crate::text::{
    ascii_lower, starts_with, to_ascii_lowercase, trim, trim_end_char, trim_end_matches_char,
    trim_spec, utf8_str,
};

verus! {

/// Protocol version 3.0.
pub const PROTOCOL_VERSION_3: i32 = 196608;

/// A tagged message: type byte and payload (the length word is implied).
#[derive(Debug, Clone)]
pub struct PgMessage {
    pub tag: u8,
    pub body: Vec<u8>,
}

impl PgMessage {
    /// The on-wire bytes: type byte, length word (payload length plus four,
    /// modulo 2^32), payload.
    pub fn encode(&self) -> (out: Vec<u8>)
        ensures
            out@ == tagged_bytes(self.tag, self.body@),
    {
        let mut out = Vec::new();
        push_tagged(&mut out, self.tag, self.body.as_slice());
        out
    }
}

/// Why a message length word is refused.
#[derive(Debug, Clone, Copy, PartialEq, Eq)]
pub enum MessageError {
    /// The length word counts fewer than its own four bytes.
    InvalidLength(u32),
}

/// The payload length of a message whose length word is `len`.
pub fn message_body_len(len: u32) -> (r: Result<usize, MessageError>)
    ensures
        len < 4 <==> r is Err,
        r matches Err(e) ==> e == MessageError::InvalidLength(len),
        r matches Ok(n) ==> n == len - 4,
{
    if len < 4 {
        return Err(MessageError::InvalidLength(len));
    }
    Ok((len - 4) as usize)
}

/// An encoded message is read back as it was written: its first byte is
/// the tag, the unsigned length word after it leaves, through
/// `message_body_len`, exactly the payload's length, and the payload follows.
pub proof fn lemma_message_roundtrip(tag: u8, body: Seq<u8>)
    requires
        body.len() + 4 <= u32::MAX,
    ensures
        tagged_bytes(tag, body)[0] == tag,
        be_u32_value(
            tagged_bytes(tag, body)[1],
            tagged_bytes(tag, body)[2],
            tagged_bytes(tag, body)[3],
            tagged_bytes(tag, body)[4],
        ) - 4 == body.len(),
        tagged_bytes(tag, body).skip(5) == body,
{
    let m = tagged_bytes(tag, body);
    let u = body.len() + 4int;
    let b = be32(u);
    assert(u % 0x1_0000_0000 == u);
    assert(m[1] == b[0] && m[2] == b[1] && m[3] == b[2] && m[4] == b[3]);
    assert(b[0] * 16777216 + b[1] * 65536 + b[2] * 256 + b[3] == u) by (nonlinear_arith)
        requires
            0 <= u < 0x1_0000_0000,
            b[0] == u / 16777216,
            b[1] == (u / 65536) % 256,
            b[2] == (u / 256) % 256,
            b[3] == u % 256,
    ;
    assert(m.skip(5) =~= body);
}

/// The text's UTF-8 bytes.
pub open spec fn utf8_of(s: Seq<char>) -> Seq<u8> {
    encode_utf8(s)
}

/// AuthenticationOk.
pub fn auth_ok() -> (m: PgMessage)
    ensures
        m.tag == 0x52u8,
        m.body@ == seq![0u8, 0, 0, 0],
{
    let body: Vec<u8> = vec![0, 0, 0, 0];
    proof {
        assert(body@ =~= seq![0u8, 0, 0, 0]);
    }
    PgMessage { tag: 0x52u8, body }
}

/// ReadyForQuery, idle.
pub fn ready_for_query_idle() -> (m: PgMessage)
    ensures
        m.tag == 0x5au8,
        m.body@ == seq![0x49u8],
{
    let body: Vec<u8> = vec![0x49];
    proof {
        assert(body@ =~= seq![0x49u8]);
    }
    PgMessage { tag: 0x5au8, body }
}

/// ParameterStatus for `name` = `value`.
pub fn parameter_status(name: &str, value: &str) -> (m: PgMessage)
    ensures
        m.tag == 0x53u8,
        m.body@ == name.spec_bytes() + seq![0u8] + value.spec_bytes() + seq![0u8],
{
    let mut body: Vec<u8> = Vec::new();
    push_bytes(&mut body, name.as_bytes());
    body.push(0);
    push_bytes(&mut body, value.as_bytes());
    body.push(0);
    PgMessage { tag: 0x53u8, body }
}

/// BackendKeyData with a process id and a secret key.
pub fn backend_key_data(pid: i32, key: i32) -> (m: PgMessage)
    ensures
        m.tag == 0x4bu8,
        m.body@ == be32(pid as int) + be32(key as int),
{
    let mut body: Vec<u8> = Vec::new();
    push_be_i32(&mut body, pid);
    push_be_i32(&mut body, key);
    PgMessage { tag: 0x4bu8, body }
}

/// ErrorResponse carrying only a message field (`M`).
pub fn error_response(message: &str) -> (m: PgMessage)
    ensures
        m.tag == 0x45u8,
        m.body@ == seq![0x4du8] + message.spec_bytes() + seq![0u8, 0u8],
{
    let mut body: Vec<u8> = Vec::new();
    body.push(0x4du8);
    push_bytes(&mut body, message.as_bytes());
    body.push(0);
    body.push(0);
    PgMessage { tag: 0x45u8, body }
}

/// The body of the one-column RowDescription of the admin console: a text
/// column named `result`.
pub open spec fn result_row_description() -> Seq<u8> {
    be16(1) + seq![0x72u8, 0x65, 0x73, 0x75, 0x6c, 0x74] + seq![0u8] + be32(0) + be16(0) + be32(25)
        + be16(-1) + be32(-1) + be16(0)
}

/// The body of a one-column DataRow holding `value`; the length field is the
/// byte length taken modulo 2^32.
pub open spec fn data_row(value: Seq<u8>) -> Seq<u8> {
    be16(1) + be32(value.len() as int) + value
}

/// The body of the CommandComplete that ends a console answer: `SELECT 0`.
pub open spec fn select_zero() -> Seq<u8> {
    seq![0x53u8, 0x45, 0x4c, 0x45, 0x43, 0x54, 0x20, 0x30, 0x00]
}

/// RowDescription, one DataRow per row (its value), and CommandComplete.
pub fn row_description_and_data(rows: &[(&str, &str)]) -> (msgs: Vec<PgMessage>)
    ensures
        msgs@.len() == rows@.len() + 2,
        msgs@[0].tag == 0x54u8,
        msgs@[0].body@ == result_row_description(),
        forall|i: int|
            0 <= i < rows@.len() ==> #[trigger] msgs@[i + 1].tag == 0x44u8 && msgs@[i + 1].body@
                == data_row(rows@[i].1.spec_bytes()),
        msgs@[rows@.len() + 1int].tag == 0x43u8,
        msgs@[rows@.len() + 1int].body@ == select_zero(),
{
    let mut rd: Vec<u8> = Vec::new();
    push_be_i16(&mut rd, 1);
    let name: [u8; 6] = [0x72, 0x65, 0x73, 0x75, 0x6c, 0x74];
    push_bytes(&mut rd, name.as_slice());
    rd.push(0);
    push_be_i32(&mut rd, 0);
    push_be_i16(&mut rd, 0);
    push_be_i32(&mut rd, 25);
    push_be_i16(&mut rd, -1);
    push_be_i32(&mut rd, -1);
    push_be_i16(&mut rd, 0);
    proof {
        assert(name@ =~= seq![0x72u8, 0x65, 0x73, 0x75, 0x6c, 0x74]);
        assert(rd@ =~= result_row_description());
    }
    let mut msgs: Vec<PgMessage> = Vec::new();
    msgs.push(PgMessage { tag: 0x54u8, body: rd });
    let mut i: usize = 0;
    while i < rows.len()
        invariant
            i <= rows@.len(),
            msgs@.len() == i + 1,
            msgs@[0].tag == 0x54u8,
            msgs@[0].body@ == result_row_description(),
            forall|j: int|
                0 <= j < i ==> #[trigger] msgs@[j + 1].tag == 0x44u8 && msgs@[j + 1].body@
                    == data_row(rows@[j].1.spec_bytes()),
        decreases rows@.len() - i,
    {
        let value = rows[i].1;
        let bytes = value.as_bytes();
        let mut data: Vec<u8> = Vec::new();
        push_be_i16(&mut data, 1);
        let n: u64 = (bytes.len() as u64) % 0x1_0000_0000;
        let n32: i32 = if n < 0x8000_0000 {
            n as i32
        } else {
            ((n as i64) - 0x1_0000_0000i64) as i32
        };
        proof {
            assert(n32 as int % 0x1_0000_0000 == bytes@.len() as int % 0x1_0000_0000);
            assert(be32(n32 as int) =~= be32(bytes@.len() as int));
        }
        push_be_i32(&mut data, n32);
        push_bytes(&mut data, bytes);
        proof {
            assert(data@ =~= data_row(rows@[i as int].1.spec_bytes()));
        }
        msgs.push(PgMessage { tag: 0x44u8, body: data });
        i += 1;
    }
    let done: [u8; 9] = [0x53, 0x45, 0x4c, 0x45, 0x43, 0x54, 0x20, 0x30, 0x00];
    let mut complete: Vec<u8> = Vec::new();
    push_bytes(&mut complete, done.as_slice());
    proof {
        assert(complete@ =~= select_zero());
    }
    msgs.push(PgMessage { tag: 0x43u8, body: complete });
    msgs
}

/// The transaction status byte of a ReadyForQuery payload.
pub fn ready_for_query_status(body: &[u8]) -> (s: Option<u8>)
    ensures
        s == (if body@.len() > 0 {
            Some(body@[0])
        } else {
            None::<u8>
        }),
{
    if body.len() > 0 {
        Some(body[0])
    } else {
        None
    }
}

/// The bytes of a query text: up to the first NUL, or all of them.
pub open spec fn sql_bytes(body: Seq<u8>) -> Seq<u8> {
    if exists|k: int| 0 <= k < body.len() && body[k] == 0 {
        body.take(choose|k: int| first_byte_at(body, 0, 0, k))
    } else {
        body
    }
}

/// The SQL of a Query payload: the text up to the first NUL (empty when it
/// is not valid UTF-8), without leading and trailing whitespace.
pub open spec fn query_sql_spec(body: Seq<u8>) -> Seq<char> {
    if valid_utf8(sql_bytes(body)) {
        trim_spec(decode_utf8(sql_bytes(body)))
    } else {
        Seq::empty()
    }
}

/// The SQL text of a Query payload.
pub fn query_sql(body: &[u8]) -> (sql: &str)
    ensures
        sql@ == query_sql_spec(body@),
{
    let end = match find_byte(body, 0, 0) {
        Some(k) => {
            proof {
                let c = choose|k: int| first_byte_at(body@, 0, 0, k);
                assert(first_byte_at(body@, 0, 0, k as int));
                assert(first_byte_at(body@, 0, 0, c));
            }
            k
        },
        None => body.len(),
    };
    proof {
        assert(sql_bytes(body@) =~= body@.take(end as int));
    }
    let text = match utf8_str(vstd::slice::slice_subrange(body, 0, end)) {
        Some(t) => t,
        None => {
            proof {
                reveal_strlit("");
            }
            ""
        },
    };
    proof {
        reveal_strlit("");
        if !valid_utf8(sql_bytes(body@)) {
            assert(text@ =~= Seq::<char>::empty());
            assert(trim_spec(text@) =~= Seq::<char>::empty());
        }
    }
    trim(text)
}

/// Whether a message is a simple Query (`Q`).
pub fn is_query(msg: &PgMessage) -> (b: bool)
    ensures
        b == (msg.tag == 0x51u8),
{
    msg.tag == 0x51u8
}

/// Whether a message is a Terminate (`X`).
pub fn is_terminate(msg: &PgMessage) -> (b: bool)
    ensures
        b == (msg.tag == 0x58u8),
{
    msg.tag == 0x58u8
}

/// Whether `s` starts with `prefix`.
pub open spec fn has_prefix(s: Seq<char>, prefix: Seq<char>) -> bool {
    prefix.len() <= s.len() && s.take(prefix.len() as int) == prefix
}

/// A Query whose lower-cased SQL starts with `begin` or `start transaction`.
pub open spec fn begins_transaction(msg: PgMessage) -> bool {
    msg.tag == 0x51u8 && (has_prefix(ascii_lower(query_sql_spec(msg.body@)), "begin"@) || has_prefix(
        ascii_lower(query_sql_spec(msg.body@)),
        "start transaction"@,
    ))
}

/// A Query whose SQL, without trailing `;` and lower-cased, is `commit` or `rollback`.
pub open spec fn ends_transaction(msg: PgMessage) -> bool {
    msg.tag == 0x51u8 && (ascii_lower(trim_end_char(query_sql_spec(msg.body@), ';'))
        == "commit"@ || ascii_lower(trim_end_char(query_sql_spec(msg.body@), ';')) == "rollback"@)
}

/// Whether a message opens an explicit transaction.
pub fn is_begin_query(msg: &PgMessage) -> (b: bool)
    ensures
        b == begins_transaction(*msg),
{
    if msg.tag != 0x51u8 {
        return false;
    }
    let sql = to_ascii_lowercase(query_sql(msg.body.as_slice()));
    starts_with(sql.as_str(), "begin") || starts_with(sql.as_str(), "start transaction")
}

/// Whether a message commits or rolls back a transaction.
pub fn is_commit_or_rollback(msg: &PgMessage) -> (b: bool)
    ensures
        b == ends_transaction(*msg),
{
    if msg.tag != 0x51u8 {
        return false;
    }
    let sql = to_ascii_lowercase(trim_end_matches_char(query_sql(msg.body.as_slice()), ';'));
    crate::wire::str_eq(sql.as_str(), "commit") || crate::wire::str_eq(sql.as_str(), "rollback")
}

} // verus!

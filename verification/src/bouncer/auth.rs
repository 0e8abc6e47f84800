//! Authenticating the pooler to the backend: what each backend message asks
//! for, and the answers the pooler sends.

use vstd::prelude::*;
use vstd::string::StringSliceAdditionalSpecFns;
use vstd::utf8::{decode_utf8, encode_utf8, valid_utf8};
use crate::bouncer::crypto::{md5_digest, md5_of};
use crate::bouncer::protocol::PgMessage;
use crate::text::{contains_str, occurs_at, trim_end_char, trim_end_matches_char, utf8_str};
use crate::wire::{be32, be_i32_at, push_be_i32, push_bytes, read_be_i32};

verus! {

/// Why authenticating to the backend fails.
#[derive(Debug, Clone, Copy, PartialEq, Eq)]
pub enum AuthError {
    /// The backend asked for an authentication method the pooler lacks.
    UnsupportedAuthType(i32),
    /// The backend answered with an error during authentication.
    BackendRejected,
    /// The backend offers no SCRAM-SHA-256 among its SASL mechanisms.
    NoScramMechanism,
    /// The backend answered with an error during the SCRAM exchange.
    ScramRejected,
}

/// What a backend message asks of the pooler while it authenticates.
#[derive(Debug, Clone, PartialEq, Eq)]
pub enum BackendAuthStep {
    /// Nothing: read the next message.
    Continue,
    /// Send the password in clear text.
    SendCleartext,
    /// Send the MD5-hashed password with this four-byte salt.
    SendMd5(Vec<u8>),
    /// Run a SCRAM exchange; the SASL mechanisms offered.
    StartScram(Vec<u8>),
    /// ReadyForQuery: the connection is ready.
    Ready,
}

/// The authentication request code of an `R` message.
pub open spec fn auth_code(body: Seq<u8>) -> int {
    be_i32_at(body, 0)
}

/// Messages the pooler can read while authenticating without failing on
/// their layout: an `R` message holds its request code, and an MD5 request
/// also its salt.
pub open spec fn auth_message_readable(msg: PgMessage) -> bool {
    msg.tag == 0x52u8 ==> (msg.body@.len() >= 4 && (auth_code(msg.body@) == 5 ==> msg.body@.len()
        >= 8))
}

/// The step a backend message asks for: AuthenticationOk (0) needs nothing,
/// cleartext (3) and MD5 (5) password requests are answered, SASL (10)
/// starts SCRAM, any other request code is unsupported; ReadyForQuery ends
/// the exchange and ErrorResponse fails it.
pub fn backend_auth_step(msg: &PgMessage) -> (r: Result<BackendAuthStep, AuthError>)
    requires
        auth_message_readable(*msg),
    ensures
        (msg.tag == 0x52u8 && auth_code(msg.body@) == 0) ==> r == Ok::<BackendAuthStep, AuthError>(
            BackendAuthStep::Continue,
        ),
        (msg.tag == 0x52u8 && auth_code(msg.body@) == 3) ==> r == Ok::<BackendAuthStep, AuthError>(
            BackendAuthStep::SendCleartext,
        ),
        (msg.tag == 0x52u8 && auth_code(msg.body@) == 5) ==> (r matches Ok(
            BackendAuthStep::SendMd5(salt),
        ) && salt@ == msg.body@.subrange(4, 8)),
        (msg.tag == 0x52u8 && auth_code(msg.body@) == 10) ==> (r matches Ok(
            BackendAuthStep::StartScram(m),
        ) && m@ == msg.body@.skip(4)),
        (msg.tag == 0x52u8 && auth_code(msg.body@) != 0 && auth_code(msg.body@) != 3 && auth_code(
            msg.body@,
        ) != 5 && auth_code(msg.body@) != 10) ==> r == Err::<BackendAuthStep, AuthError>(
            AuthError::UnsupportedAuthType(auth_code(msg.body@) as i32),
        ),
        msg.tag == 0x5au8 ==> r == Ok::<BackendAuthStep, AuthError>(BackendAuthStep::Ready),
        msg.tag == 0x45u8 ==> r == Err::<BackendAuthStep, AuthError>(AuthError::BackendRejected),
        (msg.tag != 0x52u8 && msg.tag != 0x5au8 && msg.tag != 0x45u8) ==> r == Ok::<
            BackendAuthStep,
            AuthError,
        >(BackendAuthStep::Continue),
{
    if msg.tag == 0x52u8 {
        let code = read_be_i32(msg.body.as_slice(), 0);
        if code == 0 {
            Ok(BackendAuthStep::Continue)
        } else if code == 3 {
            Ok(BackendAuthStep::SendCleartext)
        } else if code == 5 {
            let salt = vstd::slice::slice_to_vec(
                vstd::slice::slice_subrange(msg.body.as_slice(), 4, 8),
            );
            Ok(BackendAuthStep::SendMd5(salt))
        } else if code == 10 {
            let mechanisms = vstd::slice::slice_to_vec(
                vstd::slice::slice_subrange(msg.body.as_slice(), 4, msg.body.len()),
            );
            proof {
                assert(mechanisms@ =~= msg.body@.skip(4));
            }
            Ok(BackendAuthStep::StartScram(mechanisms))
        } else {
            Err(AuthError::UnsupportedAuthType(code))
        }
    } else if msg.tag == 0x5au8 {
        Ok(BackendAuthStep::Ready)
    } else if msg.tag == 0x45u8 {
        Err(AuthError::BackendRejected)
    } else {
        Ok(BackendAuthStep::Continue)
    }
}

/// The lower-case hexadecimal digit of `d` (below 16).
pub open spec fn hex_digit(d: int) -> char {
    if d < 10 {
        ((d + 48) as u8) as char
    } else {
        ((d + 87) as u8) as char
    }
}

/// The lower-case hexadecimal text of `bytes`, two digits per byte.
pub open spec fn hex_text(bytes: Seq<u8>) -> Seq<char>
    decreases bytes.len(),
{
    if bytes.len() == 0 {
        Seq::empty()
    } else {
        hex_text(bytes.drop_last()) + seq![
            hex_digit(bytes.last() as int / 16),
            hex_digit(bytes.last() as int % 16),
        ]
    }
}

/// The one-character string of the hexadecimal digit `d`.
fn hex_digit_str(d: u8) -> (s: &'static str)
    requires
        d < 16,
    ensures
        s@ == seq![hex_digit(d as int)],
{
    let s = match d {
        0 => "0",
        1 => "1",
        2 => "2",
        3 => "3",
        4 => "4",
        5 => "5",
        6 => "6",
        7 => "7",
        8 => "8",
        9 => "9",
        10 => "a",
        11 => "b",
        12 => "c",
        13 => "d",
        14 => "e",
        _ => "f",
    };
    proof {
        reveal_strlit("0");
        reveal_strlit("1");
        reveal_strlit("2");
        reveal_strlit("3");
        reveal_strlit("4");
        reveal_strlit("5");
        reveal_strlit("6");
        reveal_strlit("7");
        reveal_strlit("8");
        reveal_strlit("9");
        reveal_strlit("a");
        reveal_strlit("b");
        reveal_strlit("c");
        reveal_strlit("d");
        reveal_strlit("e");
        reveal_strlit("f");
    }
    s
}

/// The lower-case hexadecimal text of `bytes`.
pub fn to_hex(bytes: &[u8]) -> (s: String)
    ensures
        s@ == hex_text(bytes@),
{
    let mut s = String::new();
    let mut i: usize = 0;
    proof {
        assert(bytes@.take(0) =~= Seq::<u8>::empty());
    }
    while i < bytes.len()
        invariant
            i <= bytes@.len(),
            s@ == hex_text(bytes@.take(i as int)),
        decreases bytes@.len() - i,
    {
        let b = bytes[i];
        s.append(hex_digit_str(b / 16));
        s.append(hex_digit_str(b % 16));
        proof {
            assert(bytes@.take(i + 1).drop_last() =~= bytes@.take(i as int));
        }
        i += 1;
    }
    proof {
        assert(bytes@.take(bytes@.len() as int) =~= bytes@);
    }
    s
}

/// The MD5 password answer: `md5` and the hex digest of the hex digest of
/// password and user, followed by the salt.
pub open spec fn md5_password_text(password: Seq<char>, user: Seq<char>, salt: Seq<u8>) -> Seq<char> {
    "md5"@ + hex_text(
        md5_of(encode_utf8(hex_text(md5_of(encode_utf8(password) + encode_utf8(user)))) + salt),
    )
}

/// The password to send for an MD5 request.
pub fn md5_password(password: &str, user: &str, salt: &[u8]) -> (s: String)
    ensures
        s@ == md5_password_text(password@, user@, salt@),
{
    let mut input: Vec<u8> = Vec::new();
    push_bytes(&mut input, password.as_bytes());
    push_bytes(&mut input, user.as_bytes());
    proof {
        crate::wire::lemma_encode_utf8_concat(password@, user@);
        assert(input@ =~= encode_utf8(password@) + encode_utf8(user@));
    }
    let inner = to_hex(md5_digest(input.as_slice()).as_slice());
    let mut outer_input: Vec<u8> = Vec::new();
    push_bytes(&mut outer_input, inner.as_str().as_bytes());
    push_bytes(&mut outer_input, salt);
    let mut s = String::from_str("md5");
    s.append(to_hex(md5_digest(outer_input.as_slice()).as_slice()).as_str());
    s
}

/// A PasswordMessage (`p`) carrying `password` and its NUL terminator.
pub fn password_message(password: &str) -> (m: PgMessage)
    ensures
        m.tag == 0x70u8,
        m.body@ == password.spec_bytes().push(0u8),
{
    let mut body: Vec<u8> = Vec::new();
    push_bytes(&mut body, password.as_bytes());
    body.push(0);
    PgMessage { tag: 0x70u8, body }
}

/// The bytes of the mechanism name `SCRAM-SHA-256`.
pub open spec fn scram_mechanism_bytes() -> Seq<u8> {
    seq![0x53u8, 0x43, 0x52, 0x41, 0x4d, 0x2d, 0x53, 0x48, 0x41, 0x2d, 0x32, 0x35, 0x36]
}

/// A SASLInitialResponse for SCRAM-SHA-256 carrying `payload` (its length
/// taken modulo 2^32).
pub fn sasl_initial_message(payload: &[u8]) -> (m: PgMessage)
    ensures
        m.tag == 0x70u8,
        m.body@ == scram_mechanism_bytes() + seq![0u8] + be32(payload@.len() as int) + payload@,
{
    let name: [u8; 13] = [0x53, 0x43, 0x52, 0x41, 0x4d, 0x2d, 0x53, 0x48, 0x41, 0x2d, 0x32, 0x35, 0x36];
    let mut body: Vec<u8> = Vec::new();
    push_bytes(&mut body, name.as_slice());
    body.push(0);
    let n: u64 = (payload.len() as u64) % 0x1_0000_0000;
    let n32: i32 = if n < 0x8000_0000 {
        n as i32
    } else {
        ((n as i64) - 0x1_0000_0000i64) as i32
    };
    proof {
        assert(n32 as int % 0x1_0000_0000 == payload@.len() as int % 0x1_0000_0000);
        assert(be32(n32 as int) =~= be32(payload@.len() as int));
    }
    push_be_i32(&mut body, n32);
    push_bytes(&mut body, payload);
    proof {
        assert(name@ =~= scram_mechanism_bytes());
        assert(body@ =~= scram_mechanism_bytes() + seq![0u8] + be32(payload@.len() as int) + payload@);
    }
    PgMessage { tag: 0x70u8, body }
}

/// A SASLResponse carrying `payload`.
pub fn sasl_response_message(payload: &[u8]) -> (m: PgMessage)
    ensures
        m.tag == 0x70u8,
        m.body@ == payload@,
{
    PgMessage { tag: 0x70u8, body: vstd::slice::slice_to_vec(payload) }
}

/// The mechanism list as text: its UTF-8 decoding (empty when invalid),
/// without trailing NUL characters.
pub open spec fn mechanisms_text(mechanisms: Seq<u8>) -> Seq<char> {
    trim_end_char(
        if valid_utf8(mechanisms) {
            decode_utf8(mechanisms)
        } else {
            Seq::empty()
        },
        '\0',
    )
}

/// Whether the backend offers SCRAM-SHA-256: the name occurs in its mechanism list.
pub fn scram_offered(mechanisms: &[u8]) -> (b: bool)
    ensures
        b == exists|i: int| occurs_at(mechanisms_text(mechanisms@), "SCRAM-SHA-256"@, i),
{
    let text = match utf8_str(mechanisms) {
        Some(t) => t,
        None => "",
    };
    proof {
        reveal_strlit("");
        if !valid_utf8(mechanisms@) {
            assert(text@ =~= Seq::<char>::empty());
        }
    }
    proof {
        assert(text@ == (if valid_utf8(mechanisms@) {
            decode_utf8(mechanisms@)
        } else {
            Seq::<char>::empty()
        }));
    }
    let trimmed = trim_end_matches_char(text, '\0');
    assert(trimmed@ == mechanisms_text(mechanisms@));
    contains_str(trimmed, "SCRAM-SHA-256")
}

/// What a backend message means while waiting for a SASL challenge or for
/// the end of the SCRAM exchange.
#[derive(Debug, Clone, PartialEq, Eq)]
pub enum SaslStep {
    /// The awaited message arrived, with this payload.
    Payload(Vec<u8>),
    /// Not yet: read the next message.
    Continue,
}

/// Messages whose layout the SCRAM exchange can read: an `R` message holds
/// its request code.
pub open spec fn sasl_message_readable(msg: PgMessage) -> bool {
    msg.tag == 0x52u8 ==> msg.body@.len() >= 4
}

/// While waiting for the server's first SCRAM message: a SASLContinue (11)
/// carries it; an ErrorResponse fails the exchange.
pub fn sasl_continue_step(msg: &PgMessage) -> (r: Result<SaslStep, AuthError>)
    requires
        sasl_message_readable(*msg),
    ensures
        (msg.tag == 0x52u8 && auth_code(msg.body@) == 11) ==> (r matches Ok(SaslStep::Payload(p))
            && p@ == msg.body@.skip(4)),
        msg.tag == 0x45u8 ==> r == Err::<SaslStep, AuthError>(AuthError::ScramRejected),
        !(msg.tag == 0x52u8 && auth_code(msg.body@) == 11) && msg.tag != 0x45u8 ==> r == Ok::<
            SaslStep,
            AuthError,
        >(SaslStep::Continue),
{
    if msg.tag == 0x52u8 {
        let code = read_be_i32(msg.body.as_slice(), 0);
        if code == 11 {
            let payload = vstd::slice::slice_to_vec(
                vstd::slice::slice_subrange(msg.body.as_slice(), 4, msg.body.len()),
            );
            proof {
                assert(payload@ =~= msg.body@.skip(4));
            }
            return Ok(SaslStep::Payload(payload));
        }
    }
    if msg.tag == 0x45u8 {
        return Err(AuthError::ScramRejected);
    }
    Ok(SaslStep::Continue)
}

/// While waiting for the end of the SCRAM exchange: a SASLFinal (12)
/// carries the server's last message, an AuthenticationOk (0) ends it with
/// none; an ErrorResponse fails it.
pub fn sasl_final_step(msg: &PgMessage) -> (r: Result<SaslStep, AuthError>)
    requires
        sasl_message_readable(*msg),
    ensures
        (msg.tag == 0x52u8 && auth_code(msg.body@) == 12) ==> (r matches Ok(SaslStep::Payload(p))
            && p@ == msg.body@.skip(4)),
        (msg.tag == 0x52u8 && auth_code(msg.body@) == 0) ==> (r matches Ok(SaslStep::Payload(p))
            && p@.len() == 0),
        msg.tag == 0x45u8 ==> r == Err::<SaslStep, AuthError>(AuthError::ScramRejected),
        !(msg.tag == 0x52u8 && (auth_code(msg.body@) == 12 || auth_code(msg.body@) == 0))
            && msg.tag != 0x45u8 ==> r == Ok::<SaslStep, AuthError>(SaslStep::Continue),
{
    if msg.tag == 0x52u8 {
        let code = read_be_i32(msg.body.as_slice(), 0);
        if code == 12 {
            let payload = vstd::slice::slice_to_vec(
                vstd::slice::slice_subrange(msg.body.as_slice(), 4, msg.body.len()),
            );
            proof {
                assert(payload@ =~= msg.body@.skip(4));
            }
            return Ok(SaslStep::Payload(payload));
        }
        if code == 0 {
            return Ok(SaslStep::Payload(Vec::new()));
        }
    }
    if msg.tag == 0x45u8 {
        return Err(AuthError::ScramRejected);
    }
    Ok(SaslStep::Continue)
}

/// The query that resets a server connection before it is reused: a Query
/// carrying `DISCARD ALL;` (without a terminating NUL).
pub fn reset_query() -> (m: PgMessage)
    ensures
        m.tag == 0x51u8,
        m.body@ == seq![0x44u8, 0x49, 0x53, 0x43, 0x41, 0x52, 0x44, 0x20, 0x41, 0x4c, 0x4c, 0x3b],
{
    let sql: [u8; 12] = [0x44, 0x49, 0x53, 0x43, 0x41, 0x52, 0x44, 0x20, 0x41, 0x4c, 0x4c, 0x3b];
    let body = vstd::slice::slice_to_vec(sql.as_slice());
    proof {
        assert(body@ =~= seq![0x44u8, 0x49, 0x53, 0x43, 0x41, 0x52, 0x44, 0x20, 0x41, 0x4c, 0x4c, 0x3b]);
    }
    PgMessage { tag: 0x51u8, body }
}

} // verus!

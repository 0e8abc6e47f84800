//! The startup message as the pooler reads it from clients and writes it
//! to the backend.

use vstd::prelude::*;
use vstd::string::StringSliceAdditionalSpecFns;
use vstd::utf8::{decode_utf8, encode_utf8, encode_utf8_decode_utf8, encode_utf8_valid_utf8, valid_utf8};
use crate::keyed::map_of_entries;
use crate::protocol::startup::SSL_REQUEST_CODE;
use crate::strmap::StrMap;
use crate::text::utf8_str;
use crate::wire::{
    be32, byte_from, find_byte, first_byte_at, has_byte_from, lemma_encode_nonempty, lemma_encode_utf8_no_nul,
    lemma_first_byte_unique, push_be_i32, push_bytes, push_len_prefixed,
};

verus! {

/// Why a client's startup is refused.
#[derive(Debug, Clone, Copy, PartialEq, Eq)]
pub enum StartupError {
    /// A parameter name or value lacks its NUL terminator.
    UnterminatedCString,
    /// A parameter name or value is not valid UTF-8.
    InvalidUtf8,
    /// The length word is below eight.
    InvalidLength(i32),
    /// An eight-byte packet that is not an SSL request.
    UnknownSpecialCode(i32),
}

/// The parameters of a client's startup message.
pub struct StartupMessage {
    pub params: StrMap<String>,
}

/// The user a startup names, `postgres` by default.
pub open spec fn startup_user(m: Map<Seq<char>, Seq<char>>) -> Seq<char> {
    if m.contains_key("user"@) {
        m["user"@]
    } else {
        "postgres"@
    }
}

/// The database a startup names, the user name by default.
pub open spec fn startup_database(m: Map<Seq<char>, Seq<char>>) -> Seq<char> {
    if m.contains_key("database"@) {
        m["database"@]
    } else {
        startup_user(m)
    }
}

/// The bytes of one parameter: name and value, each NUL-terminated.
pub open spec fn pair_bytes(k: Seq<char>, v: Seq<char>) -> Seq<u8> {
    encode_utf8(k) + seq![0u8] + encode_utf8(v) + seq![0u8]
}

/// The bytes of a parameter list, in order.
pub open spec fn pairs_bytes(ps: Seq<(String, String)>) -> Seq<u8>
    decreases ps.len(),
{
    if ps.len() == 0 {
        Seq::empty()
    } else {
        pair_bytes(ps[0].0@, ps[0].1@) + pairs_bytes(ps.drop_first())
    }
}

/// The payload of a startup message: version 3.0, the parameters, a closing NUL.
pub open spec fn startup_payload(ps: Seq<(String, String)>) -> Seq<u8> {
    be32(196608) + pairs_bytes(ps) + seq![0u8]
}

/// A whole startup message: length word (payload length plus four, modulo
/// 2^32) and payload.
pub open spec fn startup_message_bytes(ps: Seq<(String, String)>) -> Seq<u8> {
    be32(startup_payload(ps).len() + 4int) + startup_payload(ps)
}

proof fn lemma_pairs_bytes_push(ps: Seq<(String, String)>, i: int)
    requires
        0 <= i < ps.len(),
    ensures
        pairs_bytes(ps.take(i + 1)) == pairs_bytes(ps.take(i)) + pair_bytes(ps[i].0@, ps[i].1@),
    decreases i,
{
    if i == 0 {
        assert(ps.take(1).drop_first() =~= Seq::<(String, String)>::empty());
        assert(pairs_bytes(ps.take(0)) =~= Seq::<u8>::empty());
        assert(pairs_bytes(Seq::<(String, String)>::empty()) =~= Seq::<u8>::empty());
        assert(ps.take(1)[0] == ps[0]);
        assert(pairs_bytes(ps.take(1)) =~= pair_bytes(ps[0].0@, ps[0].1@));
    } else {
        let t = ps.drop_first();
        lemma_pairs_bytes_push(t, i - 1);
        assert(ps.take(i + 1).drop_first() =~= t.take(i));
        assert(ps.take(i).drop_first() =~= t.take(i - 1));
        assert(pairs_bytes(ps.take(i + 1)) =~= pairs_bytes(ps.take(i)) + pair_bytes(
            ps[i].0@,
            ps[i].1@,
        ));
    }
}

impl StartupMessage {
    /// The user of the startup.
    pub fn user(&self) -> (u: &str)
        ensures
            u@ == startup_user(self.params@),
    {
        match self.params.get("user") {
            Some(u) => u.as_str(),
            None => "postgres",
        }
    }

    /// The database of the startup.
    pub fn database(&self) -> (d: &str)
        ensures
            d@ == startup_database(self.params@),
    {
        match self.params.get("database") {
            Some(d) => d.as_str(),
            None => self.user(),
        }
    }

    /// The startup that opens a server connection for this client: the
    /// client's parameters, with `user` set to the backend user and
    /// `database` to the client's database.
    pub fn for_backend(&self, backend_user: &str) -> (m: StartupMessage)
        ensures
            m.params@ == self.params@.insert("user"@, backend_user@).insert(
                "database"@,
                startup_database(self.params@),
            ),
    {
        let n = self.params.len();
        let ghost es = self.params.entry_seq();
        let mut params: StrMap<String> = StrMap::new();
        let mut i: usize = 0;
        while i < n
            invariant
                n == es.len(),
                es == self.params.entry_seq(),
                i <= n,
                params@ == map_of_entries(es.take(i as int)),
            decreases n - i,
        {
            let (k, v) = self.params.entry(i);
            params.insert(k.clone(), v.clone());
            proof {
                assert(es.take(i + 1).drop_last() =~= es.take(i as int));
            }
            i += 1;
        }
        proof {
            assert(es.take(n as int) =~= es);
        }
        let database = String::from_str(self.database());
        params.insert(String::from_str("user"), String::from_str(backend_user));
        params.insert(String::from_str("database"), database);
        StartupMessage { params }
    }

    /// The startup message with these parameters, in the map's entry order.
    pub fn encode(&self) -> (out: Vec<u8>)
        ensures
            out@ == startup_message_bytes(self.params.entry_seq()),
            map_of_entries(self.params.entry_seq()) == self.params@,
    {
        let n = self.params.len();
        let ghost ps = self.params.entry_seq();
        let mut payload: Vec<u8> = Vec::new();
        push_be_i32(&mut payload, 196608);
        let ghost start = payload@;
        let mut i: usize = 0;
        proof {
            assert(pairs_bytes(ps.take(0)) =~= Seq::<u8>::empty());
        }
        while i < n
            invariant
                n == ps.len(),
                ps == self.params.entry_seq(),
                i <= n,
                start == be32(196608),
                payload@ == start + pairs_bytes(ps.take(i as int)),
            decreases n - i,
        {
            let (k, v) = self.params.entry(i);
            push_bytes(&mut payload, k.as_str().as_bytes());
            payload.push(0);
            push_bytes(&mut payload, v.as_str().as_bytes());
            payload.push(0);
            proof {
                lemma_pairs_bytes_push(ps, i as int);
                assert(payload@ =~= start + pairs_bytes(ps.take(i + 1)));
            }
            i += 1;
        }
        payload.push(0);
        proof {
            assert(ps.take(n as int) =~= ps);
            assert(payload@ =~= startup_payload(ps));
        }
        let mut out: Vec<u8> = Vec::new();
        push_len_prefixed(&mut out, payload.as_slice());
        proof {
            assert(out@ =~= startup_message_bytes(ps));
        }
        out
    }
}

/// The NUL-terminated string at `i`: its bytes and the position after its
/// terminator, or why it cannot be read.
pub open spec fn cstr_at(b: Seq<u8>, i: int) -> Result<(Seq<char>, int), StartupError> {
    if !has_byte_from(b, i, 0) {
        Err(StartupError::UnterminatedCString)
    } else if !valid_utf8(b.subrange(i, byte_from(b, i, 0))) {
        Err(StartupError::InvalidUtf8)
    } else {
        Ok((decode_utf8(b.subrange(i, byte_from(b, i, 0))), byte_from(b, i, 0) + 1))
    }
}

/// The parameters of a startup body from byte `i` on, in order: pairs of
/// NUL-terminated strings up to an empty name or the end of the body.
pub open spec fn startup_pairs_from(b: Seq<u8>, i: int) -> Result<Seq<(Seq<char>, Seq<char>)>, StartupError>
    decreases b.len() - i,
{
    if i < 0 || i >= b.len() || b[i] == 0 {
        Ok(Seq::empty())
    } else {
        match cstr_at(b, i) {
            Err(e) => Err(e),
            Ok((k, j)) => match cstr_at(b, j) {
                Err(e) => Err(e),
                Ok((v, n)) => {
                    proof {
                        assert(first_byte_at(b, i, 0, byte_from(b, i, 0)));
                        assert(first_byte_at(b, j, 0, byte_from(b, j, 0)));
                    }
                    match startup_pairs_from(b, n) {
                        Ok(rest) => Ok(seq![(k, v)] + rest),
                        Err(e) => Err(e),
                    }
                },
            },
        }
    }
}

/// The map of a list of text pairs; a later pair for a name replaces an earlier one.
pub open spec fn text_pairs_map(ps: Seq<(Seq<char>, Seq<char>)>) -> Map<Seq<char>, Seq<char>>
    decreases ps.len(),
{
    if ps.len() == 0 {
        Map::empty()
    } else {
        text_pairs_map(ps.drop_last()).insert(ps.last().0, ps.last().1)
    }
}

/// A result with `done` put in front of the pairs it holds.
pub open spec fn prepended(
    done: Seq<(Seq<char>, Seq<char>)>,
    r: Result<Seq<(Seq<char>, Seq<char>)>, StartupError>,
) -> Result<Seq<(Seq<char>, Seq<char>)>, StartupError> {
    match r {
        Ok(rest) => Ok(done + rest),
        Err(e) => Err(e),
    }
}

/// What a client's startup length word announces.
#[derive(Debug, Clone, Copy, PartialEq, Eq)]
pub enum StartupFrame {
    /// An eight-byte special request: its code follows.
    Special,
    /// A startup message whose body (version word and parameters) has this many bytes.
    Body(usize),
}

/// Reads a startup length word: eight announces a special request, fewer is
/// refused, more announces a body of the rest.
pub fn startup_frame(len: i32) -> (r: Result<StartupFrame, StartupError>)
    requires
        len >= 0,
    ensures
        len == 8 ==> r == Ok::<StartupFrame, StartupError>(StartupFrame::Special),
        len < 8 ==> r == Err::<StartupFrame, StartupError>(StartupError::InvalidLength(len)),
        len > 8 ==> r == Ok::<StartupFrame, StartupError>(StartupFrame::Body((len - 4) as usize)),
{
    if len == 8 {
        Ok(StartupFrame::Special)
    } else if len < 8 {
        Err(StartupError::InvalidLength(len))
    } else {
        Ok(StartupFrame::Body((len - 4) as usize))
    }
}

/// Reads the code of a special request: an SSL request is declined and the
/// client may go on; any other code is refused.
pub fn special_request(code: i32) -> (r: Result<(), StartupError>)
    ensures
        r is Ok <==> code == SSL_REQUEST_CODE,
        r matches Err(e) ==> e == StartupError::UnknownSpecialCode(code),
{
    if code == SSL_REQUEST_CODE {
        Ok(())
    } else {
        Err(StartupError::UnknownSpecialCode(code))
    }
}

/// Reads the NUL-terminated string at `*i` and moves `*i` past its terminator.
pub fn read_cstr(body: &[u8], i: &mut usize) -> (r: Result<String, StartupError>)
    ensures
        match cstr_at(body@, *old(i) as int) {
            Ok((s, next)) => r matches Ok(t) && t@ == s && *final(i) == next,
            Err(e) => r == Err::<String, StartupError>(e),
        },
{
    let start = *i;
    match find_byte(body, start, 0) {
        None => {
            proof {
                if has_byte_from(body@, start as int, 0) {
                    assert(first_byte_at(body@, start as int, 0, byte_from(body@, start as int, 0)));
                }
            }
            Err(StartupError::UnterminatedCString)
        },
        Some(end) => {
            proof {
                lemma_first_byte_unique(body@, start as int, 0, end as int);
            }
            match utf8_str(vstd::slice::slice_subrange(body, start, end)) {
                None => Err(StartupError::InvalidUtf8),
                Some(text) => {
                    assert(end < body.len());
                    *i = end + 1;
                    Ok(String::from_str(text))
                },
            }
        },
    }
}

/// Reads the parameters of a startup body (the bytes after the length word;
/// the version word is skipped).
pub fn parse_startup_body(body: &[u8]) -> (r: Result<StartupMessage, StartupError>)
    ensures
        r is Ok <==> startup_pairs_from(body@, 4) is Ok,
        r matches Ok(m) ==> m.params@ == text_pairs_map(startup_pairs_from(body@, 4)->Ok_0),
        r matches Err(e) ==> startup_pairs_from(body@, 4) == Err::<
            Seq<(Seq<char>, Seq<char>)>,
            StartupError,
        >(e),
{
    let mut params: StrMap<String> = StrMap::new();
    let ghost b = body@;
    let ghost mut done: Seq<(Seq<char>, Seq<char>)> = Seq::empty();
    let mut i: usize = 4;
    proof {
        assert(prepended(done, startup_pairs_from(b, 4)) =~= startup_pairs_from(b, 4)) by {
            match startup_pairs_from(b, 4) {
                Ok(rest) => assert(done + rest =~= rest),
                Err(_) => {},
            }
        }
    }
    while i < body.len() && body[i] != 0
        invariant
            b == body@,
            4 <= i,
            prepended(done, startup_pairs_from(b, i as int)) == startup_pairs_from(b, 4),
            params@ == text_pairs_map(done),
        decreases body@.len() - i,
    {
        let ghost at = i as int;
        let key = match read_cstr(body, &mut i) {
            Ok(k) => k,
            Err(e) => return Err(e),
        };
        let value = match read_cstr(body, &mut i) {
            Ok(v) => v,
            Err(e) => return Err(e),
        };
        let ghost pair = (key@, value@);
        proof {
            assert(first_byte_at(b, at, 0, byte_from(b, at, 0)));
            let j = byte_from(b, at, 0) + 1;
            assert(first_byte_at(b, j, 0, byte_from(b, j, 0)));
            match startup_pairs_from(b, i as int) {
                Ok(rest) => {
                    assert(startup_pairs_from(b, at) == Ok::<
                        Seq<(Seq<char>, Seq<char>)>,
                        StartupError,
                    >(seq![pair] + rest));
                    assert(done.push(pair) + rest =~= done + (seq![pair] + rest));
                },
                Err(_) => {},
            }
            assert(done.push(pair).drop_last() =~= done);
            done = done.push(pair);
        }
        params.insert(key, value);
    }
    proof {
        assert(startup_pairs_from(b, i as int) =~= Ok::<
            Seq<(Seq<char>, Seq<char>)>,
            StartupError,
        >(Seq::empty()));
        assert(done + Seq::<(Seq<char>, Seq<char>)>::empty() =~= done);
    }
    Ok(StartupMessage { params })
}

/// Parameters the startup format can carry: every name is non-empty, and
/// no name or value holds a NUL character.
pub open spec fn encodable_params(ps: Seq<(String, String)>) -> bool {
    forall|i: int|
        0 <= i < ps.len() ==> ps[i].0@.len() > 0 && !ps[i].0@.contains('\0')
            && !ps[i].1@.contains('\0')
}

/// The parameters as text pairs.
pub open spec fn pair_views(ps: Seq<(String, String)>) -> Seq<(Seq<char>, Seq<char>)> {
    ps.map_values(|p: (String, String)| (p.0@, p.1@))
}

/// Reading one NUL-terminated string back from `pre + text + NUL + rest`.
proof fn lemma_cstr_back(pre: Seq<u8>, text: Seq<char>, rest: Seq<u8>)
    requires
        !text.contains('\0'),
    ensures
        cstr_at(pre + encode_utf8(text) + seq![0u8] + rest, pre.len() as int) == Ok::<
            (Seq<char>, int),
            StartupError,
        >((text, pre.len() + encode_utf8(text).len() + 1int)),
{
    let t = encode_utf8(text);
    let b = pre + t + seq![0u8] + rest;
    let i = pre.len() as int;
    lemma_encode_utf8_no_nul(text);
    assert forall|j: int| i <= j < i + t.len() implies b[j] != 0 by {
        assert(b[j] == t[j - i]);
    }
    assert(b[i + t.len()] == 0);
    lemma_first_byte_unique(b, i, 0, i + t.len());
    assert(b.subrange(i, i + t.len()) =~= t);
    encode_utf8_valid_utf8(text);
    encode_utf8_decode_utf8(text);
}


/// The parameters written after any prefix read back as the same pairs.
#[verifier::spinoff_prover]
#[verifier::rlimit(60)]
proof fn lemma_pairs_parse(pre: Seq<u8>, ps: Seq<(String, String)>)
    requires
        encodable_params(ps),
    ensures
        startup_pairs_from(pre + pairs_bytes(ps) + seq![0u8], pre.len() as int) == Ok::<
            Seq<(Seq<char>, Seq<char>)>,
            StartupError,
        >(pair_views(ps)),
    decreases ps.len(),
{
    let b = pre + pairs_bytes(ps) + seq![0u8];
    let i = pre.len() as int;
    if ps.len() == 0 {
        assert(b[i] == 0);
        assert(pair_views(ps) =~= Seq::<(Seq<char>, Seq<char>)>::empty());
    } else {
        let name = ps[0].0@;
        let value = ps[0].1@;
        let k = encode_utf8(name);
        let v = encode_utf8(value);
        let rest = ps.drop_first();
        assert(encodable_params(rest)) by {
            assert forall|j: int| 0 <= j < rest.len() implies rest[j].0@.len() > 0
                && !rest[j].0@.contains('\0') && !rest[j].1@.contains('\0') by {
                assert(rest[j] == ps[j + 1]);
            }
        }
        let tail = pairs_bytes(rest) + seq![0u8];
        assert(b =~= pre + k + seq![0u8] + (v + seq![0u8] + tail));
        lemma_cstr_back(pre, name, v + seq![0u8] + tail);
        let pre1 = pre + k + seq![0u8];
        assert(b =~= pre1 + v + seq![0u8] + tail);
        lemma_cstr_back(pre1, value, tail);
        let pre2 = pre1 + v + seq![0u8];
        assert(b =~= pre2 + pairs_bytes(rest) + seq![0u8]);
        lemma_pairs_parse(pre2, rest);
        lemma_encode_nonempty(name);
        lemma_encode_utf8_no_nul(name);
        assert(b[i] == k[0]);
        assert(k.contains(k[0]));
        let j = i + k.len() + 1;
        let n = j + v.len() + 1;
        assert(cstr_at(b, i) == Ok::<(Seq<char>, int), StartupError>((name, j)));
        assert(cstr_at(b, j) == Ok::<(Seq<char>, int), StartupError>((value, n)));
        assert(pre2.len() == n);
        assert(startup_pairs_from(b, n) == Ok::<Seq<(Seq<char>, Seq<char>)>, StartupError>(
            pair_views(rest),
        ));
        assert(pair_views(ps) =~= seq![(name, value)] + pair_views(rest));
    }
}

/// The text pairs of a parameter list describe the same map as the list.
proof fn lemma_pair_views_map(ps: Seq<(String, String)>)
    ensures
        text_pairs_map(pair_views(ps)) == map_of_entries(ps),
    decreases ps.len(),
{
    if ps.len() > 0 {
        assert(pair_views(ps).drop_last() =~= pair_views(ps.drop_last()));
        lemma_pair_views_map(ps.drop_last());
    }
}

/// A startup message written by the pooler reads back, after its length
/// word, as the same parameters in the same order and the same map, when
/// the format can carry them.
pub proof fn lemma_startup_roundtrip(ps: Seq<(String, String)>)
    requires
        encodable_params(ps),
    ensures
        startup_pairs_from(startup_message_bytes(ps).skip(4), 4) == Ok::<
            Seq<(Seq<char>, Seq<char>)>,
            StartupError,
        >(pair_views(ps)),
        text_pairs_map(pair_views(ps)) == map_of_entries(ps),
{
    let m = startup_message_bytes(ps);
    assert(m.skip(4) =~= be32(196608) + pairs_bytes(ps) + seq![0u8]);
    lemma_pairs_parse(be32(196608), ps);
    lemma_pair_views_map(ps);
}

} // verus!

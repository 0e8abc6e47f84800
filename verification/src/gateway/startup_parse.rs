//! Startup packets as the gateway reads and writes them: the parameter list
//! of a client's packet, and the packet the pool sends upstream.

use vstd::prelude::*;
use vstd::string::StringSliceAdditionalSpecFns;
use vstd::utf8::{
    decode_utf8, encode_utf8, encode_utf8_decode_utf8, encode_utf8_valid_utf8, is_ascii_chars,
    is_ascii_chars_encode_utf8, valid_utf8,
};
use crate::protocol::startup::{
    startup_kind, CANCEL_REQUEST_CODE, GSSENC_REQUEST_CODE, SSL_REQUEST_CODE,
};
use crate::bouncer::startup::text_pairs_map;
use crate::strmap::StrMap;
use crate::wire::{
    be32, be_i32_at, byte_from, find_byte, lemma_be32_signed_roundtrip, lemma_encode_nonempty, first_byte_at, has_byte_from, lemma_encode_utf8_no_nul,
    lemma_first_byte_unique, push_be_i32, push_bytes,
};

verus! {

/// The text that `String::from_utf8_lossy` makes of `bytes`.
pub uninterp spec fn utf8_lossy_of(bytes: Seq<u8>) -> Seq<char>;

/// The text of `bytes`: their UTF-8 decoding when they are valid UTF-8,
/// else the lossy conversion.
pub open spec fn lossy_text(bytes: Seq<u8>) -> Seq<char> {
    if valid_utf8(bytes) {
        decode_utf8(bytes)
    } else {
        utf8_lossy_of(bytes)
    }
}

/// Decodes bytes as UTF-8, replacing invalid sequences
/// (`String::from_utf8_lossy`).  Claimed: valid UTF-8 is decoded as it
/// stands, and any other input gives the named conversion of the bytes.
#[verifier::external_body]
pub(crate) fn utf8_lossy(bytes: &[u8]) -> (s: String)
    ensures
        s@ == (if valid_utf8(bytes@) {
            decode_utf8(bytes@)
        } else {
            utf8_lossy_of(bytes@)
        }),
{
    String::from_utf8_lossy(bytes).into_owned()
}

/// The NUL-terminated key/value pairs of a startup packet from byte `idx`
/// on, as the gateway reads them: reading stops at an empty key, at the end
/// of the packet, or where a key or value lacks its terminator.
pub open spec fn params_from(s: Seq<u8>, idx: int) -> Seq<(Seq<u8>, Seq<u8>)>
    decreases s.len() - idx,
{
    if idx < 0 || idx >= s.len() || s[idx] == 0 || !has_byte_from(s, idx, 0) {
        seq![]
    } else {
        let k = byte_from(s, idx, 0);
        let v0 = k + 1;
        if v0 >= s.len() || !has_byte_from(s, v0, 0) {
            seq![]
        } else {
            let v = byte_from(s, v0, 0);
            proof {
                assert(first_byte_at(s, idx, 0, k));
                assert(first_byte_at(s, v0, 0, v));
            }
            seq![(s.subrange(idx, k), s.subrange(v0, v))] + params_from(s, v + 1)
        }
    }
}

/// The map that a list of raw pairs gives: keys and values decoded, a later
/// pair for a key replacing an earlier one.
pub open spec fn params_map(pairs: Seq<(Seq<u8>, Seq<u8>)>) -> Map<Seq<char>, Seq<char>>
    decreases pairs.len(),
{
    if pairs.len() == 0 {
        Map::empty()
    } else {
        params_map(pairs.drop_last()).insert(
            lossy_text(pairs.last().0),
            lossy_text(pairs.last().1),
        )
    }
}

/// The parameters of a startup packet: the pairs after its length and
/// protocol version.
pub open spec fn startup_params(s: Seq<u8>) -> Map<Seq<char>, Seq<char>> {
    params_map(params_from(s, 8))
}

/// Parses `user`, `database`, and other keys from a PostgreSQL StartupMessage.
pub fn parse_startup_params(startup: &[u8]) -> (out: StrMap<String>)
    ensures
        out@ == startup_params(startup@),
{
    let mut out: StrMap<String> = StrMap::new();
    if startup.len() < 8 {
        return out;
    }
    let ghost s = startup@;
    let ghost mut done: Seq<(Seq<u8>, Seq<u8>)> = seq![];
    let mut idx: usize = 8;
    while idx < startup.len()
        invariant
            8 <= idx,
            s == startup@,
            done + params_from(s, idx as int) == params_from(s, 8),
            out@ == params_map(done),
        ensures
            done + params_from(s, idx as int) == params_from(s, 8),
            out@ == params_map(done),
            params_from(s, idx as int) =~= seq![],
        decreases startup@.len() - idx,
    {
        if startup[idx] == 0 {
            break;
        }
        let key_end = match find_byte(startup, idx, 0) {
            Some(k) => k,
            None => {
                proof {
                    if has_byte_from(s, idx as int, 0) {
                        assert(first_byte_at(s, idx as int, 0, byte_from(s, idx as int, 0)));
                    }
                }
                break;
            },
        };
        proof {
            lemma_first_byte_unique(s, idx as int, 0, key_end as int);
        }
        let key = utf8_lossy(vstd::slice::slice_subrange(startup, idx, key_end));
        let value_start = key_end + 1;
        if value_start >= startup.len() {
            break;
        }
        let value_end = match find_byte(startup, value_start, 0) {
            Some(k) => k,
            None => {
                proof {
                    if has_byte_from(s, value_start as int, 0) {
                        assert(first_byte_at(
                            s,
                            value_start as int,
                            0,
                            byte_from(s, value_start as int, 0),
                        ));
                    }
                }
                break;
            },
        };
        proof {
            lemma_first_byte_unique(s, value_start as int, 0, value_end as int);
        }
        let value = utf8_lossy(vstd::slice::slice_subrange(startup, value_start, value_end));
        let ghost pair = (s.subrange(idx as int, key_end as int), s.subrange(
            value_start as int,
            value_end as int,
        ));
        proof {
            assert(params_from(s, idx as int) == seq![pair] + params_from(s, value_end + 1));
            assert(done.push(pair) + params_from(s, value_end + 1) =~= done + params_from(
                s,
                idx as int,
            ));
            assert(done.push(pair).drop_last() =~= done);
            done = done.push(pair);
        }
        out.insert(key, value);
        idx = value_end + 1;
    }
    proof {
        assert(done =~= params_from(s, 8));
    }
    out
}

/// The bytes of the key `user`.
pub open spec fn user_key() -> Seq<u8> {
    seq![0x75u8, 0x73, 0x65, 0x72]
}

/// The bytes of the key `database`.
pub open spec fn database_key() -> Seq<u8> {
    seq![0x64u8, 0x61, 0x74, 0x61, 0x62, 0x61, 0x73, 0x65]
}

/// Protocol version 3.0, the version word of an ordinary startup packet.
pub open spec fn protocol_version_3() -> int {
    196608
}

/// The body of the startup packet the pool sends for `user` and `database`:
/// version 3.0, then `user` and `database` with their values, then the
/// closing NUL.
pub open spec fn startup_body(u: Seq<u8>, d: Seq<u8>) -> Seq<u8> {
    be32(protocol_version_3()) + user_key() + seq![0u8] + u + seq![0u8] + database_key() + seq![
        0u8,
    ] + d + seq![0u8, 0u8]
}

/// A whole startup packet: the length word (which counts itself) and the body.
pub open spec fn startup_packet(u: Seq<u8>, d: Seq<u8>) -> Seq<u8> {
    be32(startup_body(u, d).len() + 4int) + startup_body(u, d)
}

/// Builds the startup packet for a fixed `user` and `database`.
pub fn build_startup_packet(user: &str, database: &str) -> (out: Vec<u8>)
    requires
        user.spec_bytes().len() + database.spec_bytes().len() + 25 <= 0x7fff_ffff,
    ensures
        out@ == startup_packet(user.spec_bytes(), database.spec_bytes()),
{
    let user_word: [u8; 4] = [0x75, 0x73, 0x65, 0x72];
    let database_word: [u8; 8] = [0x64, 0x61, 0x74, 0x61, 0x62, 0x61, 0x73, 0x65];
    let mut body: Vec<u8> = Vec::new();
    push_be_i32(&mut body, 196608);
    push_bytes(&mut body, user_word.as_slice());
    body.push(0);
    push_bytes(&mut body, user.as_bytes());
    body.push(0);
    push_bytes(&mut body, database_word.as_slice());
    body.push(0);
    push_bytes(&mut body, database.as_bytes());
    body.push(0);
    body.push(0);
    proof {
        assert(user_word@ =~= user_key());
        assert(database_word@ =~= database_key());
        assert(body@ =~= startup_body(user.spec_bytes(), database.spec_bytes()));
    }
    let len: i32 = body.len() as i32 + 4;
    let mut out: Vec<u8> = Vec::new();
    push_be_i32(&mut out, len);
    push_bytes(&mut out, body.as_slice());
    proof {
        assert(out@ =~= startup_packet(user.spec_bytes(), database.spec_bytes()));
    }
    out
}

/// An ASCII word's bytes decode back to the word.
proof fn lemma_ascii_word(word: Seq<char>, bytes: Seq<u8>)
    requires
        is_ascii_chars(word),
        bytes.len() == word.len(),
        forall|i: int| 0 <= i < word.len() ==> bytes[i] == word[i] as u8,
    ensures
        lossy_text(bytes) == word,
{
    is_ascii_chars_encode_utf8(word);
    assert(encode_utf8(word) =~= bytes);
    encode_utf8_valid_utf8(word);
    encode_utf8_decode_utf8(word);
}

/// The raw pairs of a built packet are its two keys with their values.
#[verifier::spinoff_prover]
proof fn lemma_built_packet_pairs(u: Seq<u8>, d: Seq<u8>)
    requires
        !u.contains(0u8),
        !d.contains(0u8),
    ensures
        params_from(startup_packet(u, d), 8) == seq![(user_key(), u), (database_key(), d)],
{
    let s = startup_packet(u, d);
    let nu = u.len() as int;
    let nd = d.len() as int;
    assert(s.len() == 25 + nu + nd);
    assert(s.subrange(8, 12) =~= user_key());
    assert(s[12] == 0);
    assert(s.subrange(13, 13 + nu) =~= u);
    assert(s[13 + nu] == 0);
    assert(s.subrange(14 + nu, 22 + nu) =~= database_key());
    assert(s[22 + nu] == 0);
    assert(s.subrange(23 + nu, 23 + nu + nd) =~= d);
    assert(s[23 + nu + nd] == 0);
    assert(s[24 + nu + nd] == 0);
    assert forall|j: int| 8 <= j < 12 implies s[j] != 0 by {
        assert(s.subrange(8, 12)[j - 8] == s[j]);
    }
    assert forall|j: int| 13 <= j < 13 + nu implies s[j] != 0 by {
        assert(s.subrange(13, 13 + nu)[j - 13] == s[j]);
        assert(u[j - 13] == s[j]);
    }
    assert forall|j: int| 14 + nu <= j < 22 + nu implies s[j] != 0 by {
        assert(s.subrange(14 + nu, 22 + nu)[j - 14 - nu] == s[j]);
    }
    assert forall|j: int| 23 + nu <= j < 23 + nu + nd implies s[j] != 0 by {
        assert(s.subrange(23 + nu, 23 + nu + nd)[j - 23 - nu] == s[j]);
        assert(d[j - 23 - nu] == s[j]);
    }
    lemma_first_byte_unique(s, 8, 0, 12);
    lemma_first_byte_unique(s, 13, 0, 13 + nu);
    lemma_first_byte_unique(s, 14 + nu, 0, 22 + nu);
    lemma_first_byte_unique(s, 23 + nu, 0, 23 + nu + nd);
    assert(params_from(s, 24 + nu + nd) =~= seq![]);
    assert(params_from(s, 14 + nu) =~= seq![(database_key(), d)] + params_from(s, 24 + nu + nd));
    assert(params_from(s, 8) =~= seq![(user_key(), u)] + params_from(s, 14 + nu));
    assert(params_from(s, 8) =~= seq![(user_key(), u), (database_key(), d)]);
}

/// The map of two pairs with distinct decoded keys.
proof fn lemma_two_pairs_map(
    k1: Seq<u8>,
    v1: Seq<u8>,
    k2: Seq<u8>,
    v2: Seq<u8>,
)
    ensures
        params_map(seq![(k1, v1), (k2, v2)]) == Map::<Seq<char>, Seq<char>>::empty().insert(
            lossy_text(k1),
            lossy_text(v1),
        ).insert(lossy_text(k2), lossy_text(v2)),
{
    let pairs = seq![(k1, v1), (k2, v2)];
    let first = seq![(k1, v1)];
    assert(pairs.drop_last() =~= first);
    assert(first.drop_last() =~= Seq::<(Seq<u8>, Seq<u8>)>::empty());
    assert(params_map(first.drop_last()) == Map::<Seq<char>, Seq<char>>::empty());
    assert(params_map(first) == params_map(first.drop_last()).insert(
        lossy_text(k1),
        lossy_text(v1),
    ));
    assert(params_map(pairs) == params_map(first).insert(lossy_text(k2), lossy_text(v2)));
}

/// The keys `user` and `database` read back as themselves.
proof fn lemma_key_words()
    ensures
        lossy_text(user_key()) == "user"@,
        lossy_text(database_key()) == "database"@,
{
    reveal_strlit("user");
    reveal_strlit("database");
    lemma_ascii_word("user"@, user_key());
    lemma_ascii_word("database"@, database_key());
}

/// Reading the parameters back from the packet built for `user` and
/// `database` gives exactly those two, when neither holds a NUL character.
pub proof fn lemma_built_packet_params(user: Seq<char>, database: Seq<char>)
    requires
        !user.contains('\0'),
        !database.contains('\0'),
    ensures
        startup_params(startup_packet(encode_utf8(user), encode_utf8(database))) == map![
            "user"@ => user,
            "database"@ => database,
        ],
{
    let u = encode_utf8(user);
    let d = encode_utf8(database);
    lemma_encode_utf8_no_nul(user);
    lemma_encode_utf8_no_nul(database);
    lemma_built_packet_pairs(u, d);
    lemma_key_words();
    encode_utf8_valid_utf8(user);
    encode_utf8_valid_utf8(database);
    encode_utf8_decode_utf8(user);
    encode_utf8_decode_utf8(database);
    lemma_two_pairs_map(user_key(), u, database_key(), d);
    assert(params_map(seq![(user_key(), u), (database_key(), d)]) =~= map![
        "user"@ => user,
        "database"@ => database,
    ]);
}

/// The packet built for a user and a database is framed as an ordinary
/// startup: its length word announces its whole length, and its code is
/// protocol version 3.0 (none of the special request codes).
pub proof fn lemma_built_packet_framing(u: Seq<u8>, d: Seq<u8>)
    requires
        u.len() + d.len() + 25 <= 0x7fff_ffff,
    ensures
        be_i32_at(startup_packet(u, d), 0) == startup_packet(u, d).len(),
        startup_kind(startup_packet(u, d)) == protocol_version_3(),
        startup_kind(startup_packet(u, d)) != SSL_REQUEST_CODE,
        startup_kind(startup_packet(u, d)) != GSSENC_REQUEST_CODE,
        startup_kind(startup_packet(u, d)) != CANCEL_REQUEST_CODE,
{
    let body = startup_body(u, d);
    let p = startup_packet(u, d);
    let n = body.len() + 4int;
    assert(p.len() == n);
    lemma_be32_signed_roundtrip(n);
    lemma_be32_signed_roundtrip(protocol_version_3());
    assert(p.subrange(0, 4) =~= be32(n));
    assert(p.subrange(4, 8) =~= be32(protocol_version_3()));
    assert(p[0] == be32(n)[0] && p[1] == be32(n)[1] && p[2] == be32(n)[2] && p[3] == be32(n)[3]);
    assert(p[4] == be32(protocol_version_3())[0] && p[5] == be32(protocol_version_3())[1]
        && p[6] == be32(protocol_version_3())[2] && p[7] == be32(protocol_version_3())[3]);
}

/// The bytes of a parameter list: each name and value followed by a NUL.
pub open spec fn raw_pairs(ps: Seq<(Seq<u8>, Seq<u8>)>) -> Seq<u8>
    decreases ps.len(),
{
    if ps.len() == 0 {
        Seq::empty()
    } else {
        ps[0].0 + seq![0u8] + ps[0].1 + seq![0u8] + raw_pairs(ps.drop_first())
    }
}

/// Parameters that a startup packet can carry: names are not empty, and
/// neither names nor values hold a NUL.
pub open spec fn carriable_pairs(ps: Seq<(Seq<u8>, Seq<u8>)>) -> bool {
    forall|i: int|
        0 <= i < ps.len() ==> (#[trigger] ps[i]).0.len() > 0 && !ps[i].0.contains(0u8)
            && !ps[i].1.contains(0u8)
}

/// Reading the parameters written after any prefix gives back every pair,
/// in order.
proof fn lemma_params_from_raw_pairs(pre: Seq<u8>, ps: Seq<(Seq<u8>, Seq<u8>)>)
    requires
        carriable_pairs(ps),
    ensures
        params_from(pre + raw_pairs(ps) + seq![0u8], pre.len() as int) == ps,
    decreases ps.len(),
{
    let s = pre + raw_pairs(ps) + seq![0u8];
    let idx = pre.len() as int;
    if ps.len() == 0 {
        assert(s =~= pre + seq![0u8]);
        assert(s[idx] == 0);
        assert(params_from(s, idx) =~= seq![]);
    } else {
        let k = ps[0].0;
        let v = ps[0].1;
        let rest = ps.drop_first();
        assert(carriable_pairs(rest)) by {
            assert forall|i: int| 0 <= i < rest.len() implies (#[trigger] rest[i]).0.len() > 0
                && !rest[i].0.contains(0u8) && !rest[i].1.contains(0u8) by {
                assert(rest[i] == ps[i + 1]);
            }
        }
        let next = pre + k + seq![0u8] + v + seq![0u8];
        assert(s =~= next + raw_pairs(rest) + seq![0u8]);
        let ke = idx + k.len();
        let v0 = ke + 1;
        let ve = v0 + v.len();
        assert(next.len() == ve + 1);
        assert forall|j: int| idx <= j < ke implies s[j] != 0 by {
            assert(s[j] == k[j - idx]);
            if k[j - idx] == 0 {
                assert(k.contains(0u8));
            }
        }
        assert(s[ke] == 0);
        assert forall|j: int| v0 <= j < ve implies s[j] != 0 by {
            assert(s[j] == v[j - v0]);
            if v[j - v0] == 0 {
                assert(v.contains(0u8));
            }
        }
        assert(s[ve] == 0);
        assert(s[idx] == k[0]);
        if k[0] == 0 {
            assert(k.contains(0u8));
        }
        lemma_first_byte_unique(s, idx, 0, ke);
        lemma_first_byte_unique(s, v0, 0, ve);
        assert(s.subrange(idx, ke) =~= k);
        assert(s.subrange(v0, ve) =~= v);
        lemma_params_from_raw_pairs(next, rest);
        assert(params_from(s, idx) == seq![(k, v)] + params_from(s, ve + 1));
        assert(params_from(s, idx) =~= ps);
    }
}

/// The map of raw pairs decoded: a later pair for a name replaces an earlier one.
proof fn lemma_params_map_of_encoded(tps: Seq<(Seq<char>, Seq<char>)>)
    ensures
        params_map(encoded_pairs(tps)) == text_pairs_map(tps),
    decreases tps.len(),
{
    if tps.len() > 0 {
        let t = tps.drop_last();
        assert(encoded_pairs(tps).drop_last() =~= encoded_pairs(t));
        lemma_params_map_of_encoded(t);
        let last = tps.last();
        encode_utf8_valid_utf8(last.0);
        encode_utf8_valid_utf8(last.1);
        encode_utf8_decode_utf8(last.0);
        encode_utf8_decode_utf8(last.1);
    }
}

/// The byte pairs of a list of text pairs.
pub open spec fn encoded_pairs(tps: Seq<(Seq<char>, Seq<char>)>) -> Seq<(Seq<u8>, Seq<u8>)> {
    Seq::new(tps.len(), |i: int| (encode_utf8(tps[i].0), encode_utf8(tps[i].1)))
}

/// Every parameter a startup packet carries is read back: for any header
/// (length and version words) and any list of names and values without NUL
/// characters and with non-empty names, the parameters read from the packet
/// are exactly that list's, a later value for a name replacing an earlier one.
pub proof fn lemma_startup_params_round_trip(header: Seq<u8>, tps: Seq<(Seq<char>, Seq<char>)>)
    requires
        header.len() == 8,
        forall|i: int|
            0 <= i < tps.len() ==> (#[trigger] tps[i]).0.len() > 0 && !tps[i].0.contains('\0')
                && !tps[i].1.contains('\0'),
    ensures
        params_from(header + raw_pairs(encoded_pairs(tps)) + seq![0u8], 8) == encoded_pairs(tps),
        startup_params(header + raw_pairs(encoded_pairs(tps)) + seq![0u8]) == text_pairs_map(tps),
{
    let ps = encoded_pairs(tps);
    assert forall|i: int| 0 <= i < ps.len() implies (#[trigger] ps[i]).0.len() > 0 && !ps[i].0.contains(
        0u8,
    ) && !ps[i].1.contains(0u8) by {
        lemma_encode_nonempty(tps[i].0);
        lemma_encode_utf8_no_nul(tps[i].0);
        lemma_encode_utf8_no_nul(tps[i].1);
    }
    lemma_params_from_raw_pairs(header, ps);
    lemma_params_map_of_encoded(tps);
}

} // verus!

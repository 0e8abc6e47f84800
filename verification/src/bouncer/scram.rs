//! The client side of SCRAM-SHA-256: the first message, and the final
//! message with its proof computed from the password and the server's
//! challenge.

use vstd::prelude::*;
use vstd::string::StringSliceAdditionalSpecFns;
use vstd::utf8::encode_utf8;
use crate::bouncer::crypto::{
    base64_decode, base64_decode_of, base64_encode, base64_encode_of, hmac_sha256,
    hmac_sha256_of, padded_base64, random_nonce_bytes, sha256_digest, sha256_of,
};
use crate::bouncer::protocol::has_prefix;
use crate::text::starts_with;
use crate::wire::{be32, push_be_u32, push_bytes};

verus! {

/// Why the final SCRAM message cannot be built.
#[derive(Debug, Clone, Copy, PartialEq, Eq)]
pub enum ScramError {
    /// The server's first message has no `r=` (nonce) attribute.
    MissingNonce,
    /// The server's first message has no `s=` (salt) attribute.
    MissingSalt,
    /// The server's first message has no `i=` (iteration count) attribute.
    MissingIterations,
    /// The iteration count is not a 32-bit unsigned number.
    InvalidIterations,
    /// The salt is not valid Base64.
    InvalidSalt,
}

/// The client's first message for a nonce: no channel binding, empty user
/// name (the server uses the startup user).
pub open spec fn client_first_text(nonce: Seq<char>) -> Seq<char> {
    "n,,n=,r="@ + nonce
}

/// The client's first message with the given nonce.
pub fn client_first_with_nonce(nonce: &str) -> (s: String)
    ensures
        s@ == client_first_text(nonce@),
{
    let mut s = String::from_str("n,,n=,r=");
    s.append(nonce);
    s
}

/// The client's first message, with a fresh nonce: eighteen random bytes in
/// Base64, which makes twenty-four characters of the alphabet (no padding).
pub fn client_first() -> (s: String)
    ensures
        exists|b: Seq<u8>|
            b.len() == 18 && s@ == client_first_text(base64_encode_of(b)) && padded_base64(
                #[trigger] base64_encode_of(b),
                18,
            ),
        s@.len() == 32,
{
    let bytes = random_nonce_bytes();
    let nonce = base64_encode(bytes.as_slice());
    proof {
        reveal_strlit("n,,n=,r=");
        assert(padded_base64(base64_encode_of(bytes@), 18));
    }
    client_first_with_nonce(nonce.as_str())
}

/// Whether `k` is the first comma at or after `start`.
pub open spec fn is_first_comma(s: Seq<char>, start: int, k: int) -> bool {
    &&& start <= k < s.len()
    &&& s[k] == ','
    &&& forall|j: int| start <= j < k ==> s[j] != ','
}

/// Where the comma-separated field starting at `start` ends.
pub open spec fn field_end(s: Seq<char>, start: int) -> int {
    if exists|k: int| is_first_comma(s, start, k) {
        choose|k: int| is_first_comma(s, start, k)
    } else {
        s.len() as int
    }
}

/// The rest of the first comma-separated field, from the field starting at
/// `start` on, that begins with `prefix`, after the prefix.
pub open spec fn extract_from(s: Seq<char>, start: int, prefix: Seq<char>) -> Option<Seq<char>>
    decreases s.len() - start,
{
    if start < 0 || start > s.len() {
        None
    } else {
        let e = field_end(s, start);
        proof {
            if exists|k: int| is_first_comma(s, start, k) {
                assert(is_first_comma(s, start, e));
            }
        }
        let f = s.subrange(start, e);
        if has_prefix(f, prefix) {
            Some(f.skip(prefix.len() as int))
        } else if e >= s.len() {
            None
        } else {
            extract_from(s, e + 1, prefix)
        }
    }
}

/// The value of attribute `prefix` (such as `r=`) in a comma-separated list.
pub fn extract<'a>(s: &'a str, prefix: &str) -> (r: Option<&'a str>)
    ensures
        r is Some <==> extract_from(s@, 0, prefix@) is Some,
        r matches Some(t) ==> t@ == extract_from(s@, 0, prefix@)->Some_0,
{
    let len = s.unicode_len();
    let plen = prefix.unicode_len();
    let mut start: usize = 0;
    while start <= len
        invariant
            len == s@.len(),
            plen == prefix@.len(),
            start <= len + 1,
            start <= len ==> extract_from(s@, 0, prefix@) == extract_from(s@, start as int, prefix@),
            start > len ==> extract_from(s@, 0, prefix@) is None,
        decreases len + 1 - start,
    {
        let mut end = start;
        while end < len
            invariant
                len == s@.len(),
                start <= end <= len,
                forall|j: int| start <= j < end ==> s@[j] != ',',
            ensures
                start <= end <= len,
                forall|j: int| start <= j < end ==> s@[j] != ',',
                end < len ==> s@[end as int] == ',',
            decreases len - end,
        {
            if s.get_char(end) == ',' {
                break;
            }
            end += 1;
        }
        proof {
            if end < len {
                assert(is_first_comma(s@, start as int, end as int));
                assert(field_end(s@, start as int) == end) by {
                    let c = choose|k: int| is_first_comma(s@, start as int, k);
                    assert(is_first_comma(s@, start as int, c));
                }
            } else {
                assert(!exists|k: int| is_first_comma(s@, start as int, k));
            }
        }
        let field = s.substring_char(start, end);
        if starts_with(field, prefix) {
            let flen = field.unicode_len();
            let value = field.substring_char(plen, flen);
            proof {
                assert(value@ =~= field@.skip(plen as int));
            }
            return Some(value);
        }
        if end >= len {
            return None;
        }
        start = end + 1;
    }
    None
}

/// Whether every character is a decimal digit.
pub open spec fn all_digits(d: Seq<char>) -> bool {
    forall|i: int| 0 <= i < d.len() ==> '0' <= #[trigger] d[i] <= '9'
}

/// The number that decimal digits `d` spell.
pub open spec fn digits_value(d: Seq<char>) -> nat
    decreases d.len(),
{
    if d.len() == 0 {
        0
    } else {
        digits_value(d.drop_last()) * 10 + ((d.last() as nat) - 48) as nat
    }
}

/// The unsigned 32-bit number a text spells (`u32::from_str`): an optional
/// `+`, then at least one digit, the value fitting 32 bits.
pub open spec fn u32_text_value(s: Seq<char>) -> Option<u32> {
    let d = if s.len() > 0 && s[0] == '+' {
        s.drop_first()
    } else {
        s
    };
    if d.len() > 0 && all_digits(d) && digits_value(d) <= u32::MAX {
        Some(digits_value(d) as u32)
    } else {
        None
    }
}

proof fn lemma_digits_monotone(d: Seq<char>, i: int)
    requires
        all_digits(d),
        0 <= i <= d.len(),
    ensures
        digits_value(d.take(i)) <= digits_value(d),
    decreases d.len() - i,
{
    if i < d.len() {
        lemma_digits_monotone(d, i + 1);
        assert(d.take(i + 1).drop_last() =~= d.take(i));
        assert(d.take(i + 1).last() == d[i]);
        assert('0' <= d[i] <= '9');
    } else {
        assert(d.take(i) =~= d);
    }
}

/// Reads an unsigned 32-bit decimal number.
pub fn parse_u32(s: &str) -> (r: Option<u32>)
    ensures
        r == u32_text_value(s@),
{
    let len = s.unicode_len();
    let mut i: usize = 0;
    if len > 0 && s.get_char(0) == '+' {
        i = 1;
    }
    let ghost d = if s@.len() > 0 && s@[0] == '+' {
        s@.drop_first()
    } else {
        s@
    };
    let ghost first = i as int;
    assert(d =~= s@.skip(first));
    if i >= len {
        return None;
    }
    let mut value: u64 = 0;
    proof {
        assert(d.take(0) =~= Seq::<char>::empty());
    }
    while i < len
        invariant
            len == s@.len(),
            0 <= first <= 1,
            first <= i <= len,
            d == s@.skip(first),
            d == (if s@.len() > 0 && s@[0] == '+' { s@.drop_first() } else { s@ }),
            all_digits(d.take(i - first)),
            value == digits_value(d.take(i - first)),
            value <= u32::MAX,
        decreases len - i,
    {
        let c = s.get_char(i);
        if c < '0' || c > '9' {
            proof {
                assert(d[i - first] == c);
                assert(!all_digits(d));
            }
            return None;
        }
        let digit = (c as u32 - 48) as u64;
        let next = value * 10 + digit;
        proof {
            assert(d.take(i - first + 1).drop_last() =~= d.take(i - first));
            assert(d.take(i - first + 1).last() == c);
            assert(all_digits(d.take(i - first + 1)));
            assert(next == digits_value(d.take(i - first + 1)));
        }
        if next > 0xFFFF_FFFF {
            proof {
                if all_digits(d) {
                    lemma_digits_monotone(d, i - first + 1);
                }
            }
            return None;
        }
        value = next;
        i += 1;
    }
    proof {
        assert(d.take(i - first) =~= d);
    }
    Some(value as u32)
}

/// The byte-wise XOR of `a` with `b` where both have a byte; the rest of
/// `a` unchanged.
pub open spec fn xor_into(a: Seq<u8>, b: Seq<u8>) -> Seq<u8> {
    Seq::new(a.len(), |i: int| if i < b.len() { a[i] ^ b[i] } else { a[i] })
}

/// The byte-wise XOR of `a` and `b`, as long as the shorter.
pub open spec fn xor_zip(a: Seq<u8>, b: Seq<u8>) -> Seq<u8> {
    Seq::new(if a.len() <= b.len() { a.len() } else { b.len() }, |i: int| a[i] ^ b[i])
}

/// The `k`-th block of PBKDF2 with HMAC-SHA-256 (`k >= 1`): the first keyed
/// over the salt and the big-endian block index 1, each next one over the one before.
pub open spec fn hi_block(password: Seq<u8>, salt: Seq<u8>, k: nat) -> Seq<u8>
    decreases k,
{
    if k <= 1 {
        hmac_sha256_of(password, salt + be32(1))
    } else {
        hmac_sha256_of(password, hi_block(password, salt, (k - 1) as nat))
    }
}

/// The salted password after `k` iterations (`k >= 1`): the XOR of the
/// first `k` blocks.
pub open spec fn hi_spec(password: Seq<u8>, salt: Seq<u8>, k: nat) -> Seq<u8>
    decreases k,
{
    if k <= 1 {
        hi_block(password, salt, 1)
    } else {
        xor_into(hi_spec(password, salt, (k - 1) as nat), hi_block(password, salt, k))
    }
}

/// The number of PBKDF2 iterations actually run: at least one.
pub open spec fn iterations_run(i: u32) -> nat {
    if i == 0 {
        1
    } else {
        i as nat
    }
}

/// The SCRAM salted password: PBKDF2 with HMAC-SHA-256 over `password` and
/// `salt` (`Hi` of RFC 5802).
pub fn hi(password: &str, salt: &[u8], iterations: u32) -> (out: Vec<u8>)
    ensures
        out@ == hi_spec(password.spec_bytes(), salt@, iterations_run(iterations)),
{
    let pw = password.as_bytes();
    let mut msg: Vec<u8> = Vec::new();
    push_bytes(&mut msg, salt);
    push_be_u32(&mut msg, 1);
    let mut u = hmac_sha256(pw, msg.as_slice());
    let mut out = vstd::slice::slice_to_vec(u.as_slice());
    proof {
        assert(out@ =~= hi_spec(pw@, salt@, 1));
    }
    let mut k: u32 = 1;
    while k < iterations
        invariant
            1 <= k,
            k <= iterations || k == 1,
            pw@ == password.spec_bytes(),
            u@ == hi_block(pw@, salt@, k as nat),
            out@ == hi_spec(pw@, salt@, k as nat),
        decreases iterations - k,
    {
        u = hmac_sha256(pw, u.as_slice());
        let ghost before = out@;
        let ghost uv = u@;
        let m = if out.len() < u.len() {
            out.len()
        } else {
            u.len()
        };
        let mut j: usize = 0;
        while j < m
            invariant
                u@ == uv,
                before.len() == out@.len(),
                m == out@.len() || m == uv.len(),
                m <= out@.len(),
                m <= uv.len(),
                j <= m,
                forall|x: int| 0 <= x < j ==> out@[x] == before[x] ^ u@[x],
                forall|x: int| j <= x < out@.len() ==> out@[x] == before[x],
            decreases out@.len() - j,
        {
            let v = out[j] ^ u[j];
            out.set(j, v);
            j += 1;
        }
        k += 1;
        proof {
            assert(out@ =~= xor_into(before, uv));
        }
    }
    proof {
        assert(k as nat == iterations_run(iterations));
    }
    out
}

/// The bytes of `Client Key`.
pub open spec fn client_key_label() -> Seq<u8> {
    seq![0x43u8, 0x6c, 0x69, 0x65, 0x6e, 0x74, 0x20, 0x4b, 0x65, 0x79]
}

/// The client's first message without its GS2 header `n,,`.
pub open spec fn first_bare(client_first: Seq<char>) -> Seq<char> {
    if has_prefix(client_first, "n,,"@) {
        client_first.skip(3)
    } else {
        client_first
    }
}

/// The client's final message: the server's nonce echoed (`c=biws` for no
/// channel binding), then the proof: the client key XORed with the
/// HMAC-SHA-256, under the stored key, of the exchange so far.
pub open spec fn client_final_spec(
    password: Seq<char>,
    client_first: Seq<char>,
    server_first: Seq<char>,
) -> Result<Seq<char>, ScramError> {
    match extract_from(server_first, 0, "r="@) {
        None => Err(ScramError::MissingNonce),
        Some(nonce) => match extract_from(server_first, 0, "s="@) {
            None => Err(ScramError::MissingSalt),
            Some(salt_text) => match extract_from(server_first, 0, "i="@) {
                None => Err(ScramError::MissingIterations),
                Some(count) => match u32_text_value(count) {
                    None => Err(ScramError::InvalidIterations),
                    Some(n) => match base64_decode_of(encode_utf8(salt_text)) {
                        None => Err(ScramError::InvalidSalt),
                        Some(salt) => {
                            let salted = hi_spec(encode_utf8(password), salt, iterations_run(n));
                            let client_key = hmac_sha256_of(salted, client_key_label());
                            let stored_key = sha256_of(client_key);
                            let without_proof = "c=biws,r="@ + nonce;
                            let auth_message = first_bare(client_first) + ","@ + server_first
                                + ","@ + without_proof;
                            let signature = hmac_sha256_of(stored_key, encode_utf8(auth_message));
                            let proof = xor_zip(client_key, signature);
                            Ok(without_proof + ",p="@ + base64_encode_of(proof))
                        },
                    },
                },
            },
        },
    }
}

/// Builds the client's final SCRAM message.
pub fn client_final(password: &str, client_first: &str, server_first: &str) -> (r: Result<
    String,
    ScramError,
>)
    ensures
        match client_final_spec(password@, client_first@, server_first@) {
            Ok(t) => r matches Ok(s) && s@ == t,
            Err(e) => r == Err::<String, ScramError>(e),
        },
        r matches Ok(s) ==> exists|p: Seq<char>|
            padded_base64(p, 32) && s@ == "c=biws,r="@ + extract_from(server_first@, 0, "r="@)->Some_0
                + ",p="@ + p,
{
    let nonce = match extract(server_first, "r=") {
        Some(v) => v,
        None => return Err(ScramError::MissingNonce),
    };
    let salt_text = match extract(server_first, "s=") {
        Some(v) => v,
        None => return Err(ScramError::MissingSalt),
    };
    let count = match extract(server_first, "i=") {
        Some(v) => v,
        None => return Err(ScramError::MissingIterations),
    };
    let n = match parse_u32(count) {
        Some(n) => n,
        None => return Err(ScramError::InvalidIterations),
    };
    let salt = match base64_decode(salt_text.as_bytes()) {
        Some(b) => b,
        None => return Err(ScramError::InvalidSalt),
    };
    let salted = hi(password, salt.as_slice(), n);
    let label: [u8; 10] = [0x43, 0x6c, 0x69, 0x65, 0x6e, 0x74, 0x20, 0x4b, 0x65, 0x79];
    proof {
        assert(label@ =~= client_key_label());
    }
    let client_key = hmac_sha256(salted.as_slice(), label.as_slice());
    let stored_key = sha256_digest(client_key.as_slice());
    let bare = if starts_with(client_first, "n,,") {
        let len = client_first.unicode_len();
        proof {
            reveal_strlit("n,,");
        }
        client_first.substring_char(3, len)
    } else {
        client_first
    };
    proof {
        reveal_strlit("n,,");
        assert(bare@ == first_bare(client_first@));
    }
    let mut without_proof = String::from_str("c=biws,r=");
    without_proof.append(nonce);
    let mut auth_message = String::from_str(bare);
    auth_message.append(",");
    auth_message.append(server_first);
    auth_message.append(",");
    auth_message.append(without_proof.as_str());
    let signature = hmac_sha256(stored_key.as_slice(), auth_message.as_str().as_bytes());
    let mut proof_bytes: Vec<u8> = Vec::new();
    let mut j: usize = 0;
    while j < client_key.len() && j < signature.len()
        invariant
            client_key@.len() == 32,
            signature@.len() == 32,
            j <= 32,
            proof_bytes@ =~= Seq::new(j as nat, |x: int| client_key@[x] ^ signature@[x]),
        decreases 32 - j,
    {
        proof_bytes.push(client_key[j] ^ signature[j]);
        j += 1;
    }
    proof {
        assert(proof_bytes@ =~= xor_zip(client_key@, signature@));
    }
    let encoded = base64_encode(proof_bytes.as_slice());
    let mut out = without_proof;
    out.append(",p=");
    out.append(encoded.as_str());
    proof {
        assert(proof_bytes@.len() == 32);
        assert(padded_base64(encoded@, 32));
        assert(out@ =~= "c=biws,r="@ + nonce@ + ",p="@ + encoded@);
    }
    Ok(out)
}

} // verus!

//! The digests, encodings and randomness that backend authentication uses,
//! from the `md5`, `sha2`, `hmac`, `base64` and `rand` crates.

use vstd::prelude::*;

verus! {

/// The MD5 digest of `data` (`md5::compute`).
pub uninterp spec fn md5_of(data: Seq<u8>) -> Seq<u8>;

/// The SHA-256 digest of `data` (`sha2::Sha256`).
pub uninterp spec fn sha256_of(data: Seq<u8>) -> Seq<u8>;

/// HMAC-SHA-256 of `data` under `key` (`hmac::Hmac<Sha256>`).
pub uninterp spec fn hmac_sha256_of(key: Seq<u8>, data: Seq<u8>) -> Seq<u8>;

/// The standard, padded Base64 encoding of `data`.
pub uninterp spec fn base64_encode_of(data: Seq<u8>) -> Seq<char>;

/// The bytes that the standard, padded Base64 text `text` decodes to, if it
/// is valid Base64.
pub uninterp spec fn base64_decode_of(text: Seq<u8>) -> Option<Seq<u8>>;

/// `md5::compute`: claimed to give the named digest, 16 bytes long (its
/// `Digest` holds a `[u8; 16]`).
#[verifier::external_body]
pub(crate) fn md5_digest(data: &[u8]) -> (d: Vec<u8>)
    ensures
        d@ == md5_of(data@),
        d@.len() == 16,
{
    md5::compute(data).0.to_vec()
}

/// `sha2::Sha256::digest`: claimed to give the named digest, 32 bytes long
/// (its output size).
#[verifier::external_body]
pub(crate) fn sha256_digest(data: &[u8]) -> (d: Vec<u8>)
    ensures
        d@ == sha256_of(data@),
        d@.len() == 32,
{
    <sha2::Sha256 as sha2::Digest>::digest(data).to_vec()
}

/// `hmac::Hmac<Sha256>` keyed with `key` over `data`: claimed to give the
/// named code, 32 bytes long.  `new_from_slice` accepts keys of every length
/// for HMAC (the key is hashed or padded), so it does not fail.
#[verifier::external_body]
pub(crate) fn hmac_sha256(key: &[u8], data: &[u8]) -> (d: Vec<u8>)
    ensures
        d@ == hmac_sha256_of(key@, data@),
        d@.len() == 32,
{
    let mut mac = <hmac::Hmac<sha2::Sha256> as hmac::Mac>::new_from_slice(key).expect("hmac key");
    hmac::Mac::update(&mut mac, data);
    hmac::Mac::finalize(mac).into_bytes().to_vec()
}

/// A character of the standard Base64 alphabet: `A`-`Z`, `a`-`z`, `0`-`9`,
/// `+` and `/`.
pub open spec fn base64_alphabet(c: char) -> bool {
    ('A' <= c <= 'Z') || ('a' <= c <= 'z') || ('0' <= c <= '9') || c == '+' || c == '/'
}

/// The number of `=` that pad the encoding of `n` bytes.
pub open spec fn base64_padding(n: nat) -> nat {
    if n % 3 == 0 {
        0
    } else {
        (3 - n % 3) as nat
    }
}

/// The shape of the padded standard Base64 text of `n` bytes: four
/// characters per started group of three bytes, all from the alphabet
/// except the trailing padding.
pub open spec fn padded_base64(t: Seq<char>, n: nat) -> bool {
    &&& t.len() == 4 * ((n + 2) / 3)
    &&& forall|i: int| 0 <= i < t.len() - base64_padding(n) ==> base64_alphabet(#[trigger] t[i])
    &&& forall|i: int| t.len() - base64_padding(n) <= i < t.len() ==> #[trigger] t[i] == '='
}

/// `base64::engine::general_purpose::STANDARD.encode`: claimed to give the
/// named encoding, which has the padded standard shape (the engine's
/// alphabet is the standard one and its padding is on).  It panics only
/// when the encoded length overflows, which the bound on the input excludes.
#[verifier::external_body]
pub(crate) fn base64_encode(data: &[u8]) -> (s: String)
    requires
        data@.len() <= 0x1000_0000,
    ensures
        s@ == base64_encode_of(data@),
        padded_base64(s@, data@.len()),
{
    base64::Engine::encode(&base64::engine::general_purpose::STANDARD, data)
}

/// `base64::engine::general_purpose::STANDARD.decode`: claimed to succeed
/// exactly when the named decoding exists, giving it.
#[verifier::external_body]
pub(crate) fn base64_decode(text: &[u8]) -> (r: Option<Vec<u8>>)
    ensures
        r is Some <==> base64_decode_of(text@) is Some,
        r matches Some(b) ==> b@ == base64_decode_of(text@)->Some_0,
{
    base64::Engine::decode(&base64::engine::general_purpose::STANDARD, text).ok()
}

/// Eighteen bytes from `rand::thread_rng` (`RngCore::fill_bytes`).  Only the
/// length is claimed: the bytes are random.
#[verifier::external_body]
pub(crate) fn random_nonce_bytes() -> (b: Vec<u8>)
    ensures
        b@.len() == 18,
{
    let mut bytes = [0u8; 18];
    rand::RngCore::fill_bytes(&mut rand::thread_rng(), &mut bytes);
    bytes.to_vec()
}

} // verus!

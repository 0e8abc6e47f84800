//! Byte and text encodings shared by the protocol modules: big-endian
//! integers, decimal and hexadecimal renderings.

use vstd::prelude::*;
use vstd::string::StringSliceAdditionalSpecFns;
use vstd::utf8::{
    char_is_scalar, char_u32_cast, decode_utf8, encode_scalar, encode_utf8, encode_utf8_decode_utf8,
    has_width_1_encoding, has_width_2_encoding, has_width_3_encoding, is_scalar,
    leading_byte_width_1, leading_byte_width_2, leading_byte_width_3, leading_byte_width_4,
    last_continuation_byte, second_last_continuation_byte, third_last_continuation_byte,
};

verus! {

/// Value of four bytes read as a big-endian unsigned number.
pub open spec fn be_u32_value(b0: u8, b1: u8, b2: u8, b3: u8) -> int {
    b0 * 16777216 + b1 * 65536 + b2 * 256 + b3
}

/// Two's-complement reading of a 32-bit unsigned quantity.
pub open spec fn signed32(v: int) -> int {
    if v < 0x8000_0000 {
        v
    } else {
        v - 0x1_0000_0000
    }
}

/// The signed big-endian 32-bit integer stored at `at` in `b`.
pub open spec fn be_i32_at(b: Seq<u8>, at: int) -> int {
    signed32(be_u32_value(b[at], b[at + 1], b[at + 2], b[at + 3]))
}

/// The four big-endian bytes of `v`, taken modulo 2^32.
pub open spec fn be32(v: int) -> Seq<u8> {
    let u = v % 0x1_0000_0000;
    seq![
        (u / 16777216) as u8,
        ((u / 65536) % 256) as u8,
        ((u / 256) % 256) as u8,
        (u % 256) as u8,
    ]
}

/// The two big-endian bytes of `v`, taken modulo 2^16.
pub open spec fn be16(v: int) -> Seq<u8> {
    let u = v % 0x1_0000;
    seq![(u / 256) as u8, (u % 256) as u8]
}

/// Reads the signed big-endian 32-bit integer at `at`.
pub fn read_be_i32(b: &[u8], at: usize) -> (v: i32)
    requires
        at + 4 <= b@.len(),
    ensures
        v as int == be_i32_at(b@, at as int),
{
    let u: u32 = (b[at] as u32) * 16777216 + (b[at + 1] as u32) * 65536 + (b[at + 2] as u32)
        * 256 + (b[at + 3] as u32);
    if u < 0x8000_0000 {
        u as i32
    } else {
        ((u as i64) - 0x1_0000_0000i64) as i32
    }
}

/// Appends the four big-endian bytes of `v`.
pub fn push_be_u32(out: &mut Vec<u8>, v: u32)
    ensures
        final(out)@ == old(out)@ + be32(v as int),
{
    out.push((v / 16777216) as u8);
    out.push(((v / 65536) % 256) as u8);
    out.push(((v / 256) % 256) as u8);
    out.push((v % 256) as u8);
    proof {
        assert(final(out)@ =~= old(out)@ + be32(v as int));
    }
}

/// Appends the four big-endian bytes of the two's-complement form of `v`.
pub fn push_be_i32(out: &mut Vec<u8>, v: i32)
    ensures
        final(out)@ == old(out)@ + be32(v as int),
{
    let u: u32 = if v >= 0 {
        v as u32
    } else {
        ((v as i64) + 0x1_0000_0000i64) as u32
    };
    assert(u as int % 0x1_0000_0000 == v as int % 0x1_0000_0000);
    push_be_u32(out, u);
}

/// Appends the two big-endian bytes of the two's-complement form of `v`.
pub fn push_be_i16(out: &mut Vec<u8>, v: i16)
    ensures
        final(out)@ == old(out)@ + be16(v as int),
{
    let u: u16 = if v >= 0 {
        v as u16
    } else {
        ((v as i32) + 0x1_0000i32) as u16
    };
    assert(u as int % 0x1_0000 == v as int % 0x1_0000);
    out.push((u / 256) as u8);
    out.push((u % 256) as u8);
    proof {
        assert(final(out)@ =~= old(out)@ + be16(v as int));
    }
}

/// Appends every byte of `bytes`, in order.
pub fn push_bytes(out: &mut Vec<u8>, bytes: &[u8])
    ensures
        final(out)@ == old(out)@ + bytes@,
{
    let mut i: usize = 0;
    let ghost start = out@;
    while i < bytes.len()
        invariant
            i <= bytes@.len(),
            out@ == start + bytes@.take(i as int),
        decreases bytes@.len() - i,
    {
        out.push(bytes[i]);
        i += 1;
        proof {
            assert(bytes@.take(i as int) =~= bytes@.take(i - 1).push(bytes@[i - 1]));
        }
    }
    proof {
        assert(bytes@.take(bytes@.len() as int) =~= bytes@);
    }
}

/// `(len + 4) mod 2^32` computed from `len mod 2^32`.
pub proof fn lemma_mod_shift(len: int)
    requires
        len >= 0,
    ensures
        be32(len + 4) == be32((len % 0x1_0000_0000 + 4) % 0x1_0000_0000),
{
    assert((len + 4) % 0x1_0000_0000 == (len % 0x1_0000_0000 + 4) % 0x1_0000_0000) by (nonlinear_arith)
        requires
            len >= 0,
    ;
}

/// Appends a length word (the payload length plus four, modulo 2^32) and the payload.
pub fn push_len_prefixed(out: &mut Vec<u8>, payload: &[u8])
    ensures
        final(out)@ == old(out)@ + be32(payload@.len() + 4int) + payload@,
{
    let n: u64 = ((payload.len() as u64) % 0x1_0000_0000 + 4) % 0x1_0000_0000;
    proof {
        lemma_mod_shift(payload@.len() as int);
    }
    push_be_u32(out, n as u32);
    push_bytes(out, payload);
}

/// Decoding the big-endian bytes of a value in the signed 32-bit range gives it back.
pub proof fn lemma_be32_signed_roundtrip(v: int)
    requires
        -0x8000_0000 <= v < 0x8000_0000,
    ensures
        be_i32_at(be32(v), 0) == v,
{
    let u = v % 0x1_0000_0000;
    assert(0 <= u < 0x1_0000_0000);
    assert(v >= 0 ==> u == v);
    assert(v < 0 ==> u == v + 0x1_0000_0000);
    let b = be32(v);
    assert(b[0] * 16777216 + b[1] * 65536 + b[2] * 256 + b[3] == u) by (nonlinear_arith)
        requires
            0 <= u < 0x1_0000_0000,
            b[0] == u / 16777216,
            b[1] == (u / 65536) % 256,
            b[2] == (u / 256) % 256,
            b[3] == u % 256,
    ;
}

/// The character of the decimal digit `d`.
pub open spec fn digit_char(d: int) -> char {
    ((d + 48) as u8) as char
}

/// The decimal rendering of `n`, most significant digit first, without leading zeros.
pub open spec fn decimal(n: nat) -> Seq<char>
    decreases n,
{
    if n < 10 {
        seq![digit_char(n as int)]
    } else {
        decimal(n / 10).push(digit_char((n % 10) as int))
    }
}

/// The one-character string of the decimal digit `d`.
fn digit_str(d: u64) -> (s: &'static str)
    requires
        d < 10,
    ensures
        s@ == seq![digit_char(d as int)],
{
    let s = match d {
        0 => "0",
        1 => "1",
        2 => "2",
        3 => "3",
        4 => "4",
        5 => "5",
        6 => "6",
        7 => "7",
        8 => "8",
        _ => "9",
    };
    proof {
        reveal_strlit("0");
        reveal_strlit("1");
        reveal_strlit("2");
        reveal_strlit("3");
        reveal_strlit("4");
        reveal_strlit("5");
        reveal_strlit("6");
        reveal_strlit("7");
        reveal_strlit("8");
        reveal_strlit("9");
    }
    s
}

/// Renders `n` in decimal.
pub fn u64_decimal(n: u64) -> (s: String)
    ensures
        s@ == decimal(n as nat),
    decreases n,
{
    if n < 10 {
        String::from_str(digit_str(n))
    } else {
        let mut s = u64_decimal(n / 10);
        s.append(digit_str(n % 10));
        s
    }
}

/// Whether two byte slices hold the same bytes.
pub fn bytes_eq(a: &[u8], b: &[u8]) -> (r: bool)
    ensures
        r == (a@ == b@),
{
    if a.len() != b.len() {
        return false;
    }
    let mut i: usize = 0;
    while i < a.len()
        invariant
            i <= a@.len(),
            a@.len() == b@.len(),
            forall|j: int| 0 <= j < i ==> a@[j] == b@[j],
        decreases a@.len() - i,
    {
        if a[i] != b[i] {
            return false;
        }
        i += 1;
    }
    proof {
        assert(a@ =~= b@);
    }
    true
}

/// Whether two strings hold the same characters.
pub fn str_eq(a: &str, b: &str) -> (r: bool)
    ensures
        r == (a@ == b@),
{
    let r = bytes_eq(a.as_bytes(), b.as_bytes());
    proof {
        encode_utf8_decode_utf8(a@);
        encode_utf8_decode_utf8(b@);
    }
    r
}

/// Whether `k` is the first position at or after `from` holding the byte `b`.
pub open spec fn first_byte_at(s: Seq<u8>, from: int, b: u8, k: int) -> bool {
    &&& from <= k < s.len()
    &&& s[k] == b
    &&& forall|j: int| from <= j < k ==> s[j] != b
}

/// Whether the byte `b` occurs at or after `from`.
pub open spec fn has_byte_from(s: Seq<u8>, from: int, b: u8) -> bool {
    exists|k: int| first_byte_at(s, from, b, k)
}

/// The first position at or after `from` holding `b` (meaningful when there is one).
pub open spec fn byte_from(s: Seq<u8>, from: int, b: u8) -> int {
    choose|k: int| first_byte_at(s, from, b, k)
}

/// The first occurrence is unique, so it is the one that `byte_from` picks.
pub proof fn lemma_first_byte_unique(s: Seq<u8>, from: int, b: u8, k: int)
    requires
        first_byte_at(s, from, b, k),
    ensures
        has_byte_from(s, from, b),
        byte_from(s, from, b) == k,
{
    let c = byte_from(s, from, b);
    assert(first_byte_at(s, from, b, c));
}

/// The first position at or after `from` that holds `b`.
pub fn find_byte(s: &[u8], from: usize, b: u8) -> (r: Option<usize>)
    ensures
        match r {
            Some(k) => first_byte_at(s@, from as int, b, k as int),
            None => forall|j: int| from <= j < s@.len() ==> s@[j] != b,
        },
{
    let mut i = from;
    while i < s.len()
        invariant
            from <= i,
            forall|j: int| from <= j < i && j < s@.len() ==> s@[j] != b,
        decreases s@.len() - i,
    {
        if s[i] == b {
            return Some(i);
        }
        i += 1;
    }
    None
}

/// The encoding of a scalar other than NUL holds no zero byte.
proof fn lemma_encode_scalar_no_nul(c: u32)
    requires
        is_scalar(c),
        c != 0,
    ensures
        forall|i: int| 0 <= i < encode_scalar(c).len() ==> encode_scalar(c)[i] != 0,
{
    if has_width_1_encoding(c) {
        assert(leading_byte_width_1(c) != 0) by (bit_vector)
            requires
                1 <= c <= 0x7f,
        ;
    } else {
        assert(leading_byte_width_2(c) != 0) by (bit_vector);
        assert(leading_byte_width_3(c) != 0) by (bit_vector);
        assert(leading_byte_width_4(c) != 0) by (bit_vector);
        assert(last_continuation_byte(c) != 0) by (bit_vector);
        assert(second_last_continuation_byte(c) != 0) by (bit_vector);
        assert(third_last_continuation_byte(c) != 0) by (bit_vector);
    }
}

/// Text without a NUL character encodes to bytes without a zero byte.
pub proof fn lemma_encode_utf8_no_nul(chars: Seq<char>)
    requires
        !chars.contains('\0'),
    ensures
        !encode_utf8(chars).contains(0u8),
    decreases chars.len(),
{
    if chars.len() > 0 {
        let c = chars[0] as u32;
        char_is_scalar(chars[0]);
        if c == 0 {
            char_u32_cast(chars[0], c);
            assert(chars[0] == '\0');
            assert(chars.contains('\0'));
        }
        lemma_encode_scalar_no_nul(c);
        let rest = chars.drop_first();
        assert forall|x: char| rest.contains(x) implies chars.contains(x) by {
            let i = choose|i: int| 0 <= i < rest.len() && rest[i] == x;
            assert(chars[i + 1] == x);
        }
        lemma_encode_utf8_no_nul(rest);
        let e = encode_utf8(chars);
        assert(e == encode_scalar(c) + encode_utf8(rest));
        if e.contains(0u8) {
            let i = choose|i: int| 0 <= i < e.len() && e[i] == 0u8;
            if i < encode_scalar(c).len() {
            } else {
                assert(encode_utf8(rest)[i - encode_scalar(c).len()] == 0u8);
            }
        }
    }
}

/// Encoding a concatenation encodes each part in turn.
pub proof fn lemma_encode_utf8_concat(a: Seq<char>, b: Seq<char>)
    ensures
        encode_utf8(a + b) == encode_utf8(a) + encode_utf8(b),
    decreases a.len(),
{
    if a.len() == 0 {
        assert(a + b =~= b);
        assert(encode_utf8(a) =~= Seq::<u8>::empty());
        assert(encode_utf8(a) + encode_utf8(b) =~= encode_utf8(b));
    } else {
        lemma_encode_utf8_concat(a.drop_first(), b);
        assert((a + b).drop_first() =~= a.drop_first() + b);
        assert((a + b)[0] == a[0]);
        assert(encode_utf8(a + b) =~= encode_utf8(a) + encode_utf8(b));
    }
}

/// Non-empty text has a non-empty encoding.
pub proof fn lemma_encode_nonempty(text: Seq<char>)
    requires
        text.len() > 0,
    ensures
        encode_utf8(text).len() > 0,
{
    assert(encode_utf8(text) == vstd::utf8::encode_scalar(text[0] as u32) + encode_utf8(
        text.drop_first(),
    ));
}

} // verus!

//! Text helpers over the characters of strings: UTF-8 decoding, trimming,
//! prefixes and searches, case folding.

use vstd::prelude::*;
use vstd::string::StringSliceAdditionalSpecFns;
use vstd::utf8::{decode_utf8, valid_utf8};

verus! {

/// Whether `c` has the Unicode `White_Space` property, the set that
/// `char::is_whitespace` answers by: U+0009 to U+000D, U+0020, U+0085,
/// U+00A0, U+1680, U+2000 to U+200A, U+2028, U+2029, U+202F, U+205F and
/// U+3000.
pub open spec fn white_space(c: char) -> bool {
    let u = c as u32;
    ||| 0x09 <= u <= 0x0d
    ||| u == 0x20
    ||| u == 0x85
    ||| u == 0xa0
    ||| u == 0x1680
    ||| 0x2000 <= u <= 0x200a
    ||| u == 0x2028
    ||| u == 0x2029
    ||| u == 0x202f
    ||| u == 0x205f
    ||| u == 0x3000
}

/// Whether `c` is whitespace.
pub(crate) fn is_whitespace(c: char) -> (b: bool)
    ensures
        b == white_space(c),
{
    let u = c as u32;
    (0x09 <= u && u <= 0x0d) || u == 0x20 || u == 0x85 || u == 0xa0 || u == 0x1680 || (0x2000
        <= u && u <= 0x200a) || u == 0x2028 || u == 0x2029 || u == 0x202f || u == 0x205f || u
        == 0x3000
}

/// `std::str::from_utf8`: claimed to succeed exactly on valid UTF-8, giving
/// its decoding.
#[verifier::external_body]
pub(crate) fn utf8_str(bytes: &[u8]) -> (r: Option<&str>)
    ensures
        r is Some <==> valid_utf8(bytes@),
        r matches Some(s) ==> s@ == decode_utf8(bytes@),
{
    std::str::from_utf8(bytes).ok()
}

/// The ASCII lower-case form of a character: `A`..`Z` become `a`..`z`,
/// every other character stays.
pub open spec fn lower_char(c: char) -> char {
    if 'A' <= c <= 'Z' {
        ((c as u32) + 32) as char
    } else {
        c
    }
}

/// The ASCII lower-case form of a text.
pub open spec fn ascii_lower(s: Seq<char>) -> Seq<char> {
    s.map_values(|c: char| lower_char(c))
}

/// `str::to_ascii_lowercase`: claimed, as its documentation says, to map
/// `A`..`Z` to `a`..`z` and keep every other character.
#[verifier::external_body]
pub(crate) fn to_ascii_lowercase(s: &str) -> (r: String)
    ensures
        r@ == ascii_lower(s@),
{
    s.to_ascii_lowercase()
}

/// The text without its leading whitespace.
pub open spec fn trim_start_spec(s: Seq<char>) -> Seq<char>
    decreases s.len(),
{
    if s.len() > 0 && white_space(s[0]) {
        trim_start_spec(s.drop_first())
    } else {
        s
    }
}

/// The text without its trailing whitespace.
pub open spec fn trim_end_spec(s: Seq<char>) -> Seq<char>
    decreases s.len(),
{
    if s.len() > 0 && white_space(s.last()) {
        trim_end_spec(s.drop_last())
    } else {
        s
    }
}

/// The text without leading and trailing whitespace.
pub open spec fn trim_spec(s: Seq<char>) -> Seq<char> {
    trim_end_spec(trim_start_spec(s))
}

/// The text without its trailing `c` characters.
pub open spec fn trim_end_char(s: Seq<char>, c: char) -> Seq<char>
    decreases s.len(),
{
    if s.len() > 0 && s.last() == c {
        trim_end_char(s.drop_last(), c)
    } else {
        s
    }
}

proof fn lemma_trim_start_skip(s: Seq<char>, i: int)
    requires
        0 <= i < s.len(),
        white_space(s[i]),
    ensures
        trim_start_spec(s.skip(i)) == trim_start_spec(s.skip(i + 1)),
{
    assert(s.skip(i).drop_first() =~= s.skip(i + 1));
}

/// Number of characters left after dropping the trailing whitespace.
fn trimmed_end_ws_len(s: &str) -> (n: usize)
    ensures
        n <= s@.len(),
        s@.take(n as int) == trim_end_spec(s@),
{
    let mut n = s.unicode_len();
    proof {
        assert(s@.take(n as int) =~= s@);
    }
    while n > 0
        invariant
            n <= s@.len(),
            trim_end_spec(s@.take(n as int)) == trim_end_spec(s@),
        ensures
            n <= s@.len(),
            trim_end_spec(s@.take(n as int)) == trim_end_spec(s@),
            n == 0 || !white_space(s@[n - 1]),
        decreases n,
    {
        if !is_whitespace(s.get_char(n - 1)) {
            break;
        }
        proof {
            assert(s@.take(n as int).drop_last() =~= s@.take(n - 1));
        }
        n -= 1;
    }
    proof {
        if n > 0 {
            assert(s@.take(n as int).last() == s@[n - 1]);
        }
    }
    n
}

/// Number of characters left after dropping the trailing `c` characters.
fn trimmed_end_char_len(s: &str, c: char) -> (n: usize)
    ensures
        n <= s@.len(),
        s@.take(n as int) == trim_end_char(s@, c),
{
    let mut n = s.unicode_len();
    proof {
        assert(s@.take(n as int) =~= s@);
    }
    while n > 0
        invariant
            n <= s@.len(),
            trim_end_char(s@.take(n as int), c) == trim_end_char(s@, c),
        ensures
            n <= s@.len(),
            trim_end_char(s@.take(n as int), c) == trim_end_char(s@, c),
            n == 0 || s@[n - 1] != c,
        decreases n,
    {
        if s.get_char(n - 1) != c {
            break;
        }
        proof {
            assert(s@.take(n as int).drop_last() =~= s@.take(n - 1));
        }
        n -= 1;
    }
    proof {
        if n > 0 {
            assert(s@.take(n as int).last() == s@[n - 1]);
        }
    }
    n
}

/// The string without leading and trailing whitespace (`str::trim`).
pub fn trim(s: &str) -> (r: &str)
    ensures
        r@ == trim_spec(s@),
{
    let len = s.unicode_len();
    let mut start: usize = 0;
    proof {
        assert(s@.skip(0) =~= s@);
    }
    while start < len
        invariant
            len == s@.len(),
            start <= len,
            trim_start_spec(s@.skip(start as int)) == trim_start_spec(s@),
        ensures
            start <= len,
            trim_start_spec(s@.skip(start as int)) == trim_start_spec(s@),
            start == len || !white_space(s@[start as int]),
        decreases len - start,
    {
        if !is_whitespace(s.get_char(start)) {
            break;
        }
        proof {
            lemma_trim_start_skip(s@, start as int);
        }
        start += 1;
    }
    let rest = s.substring_char(start, len);
    proof {
        assert(rest@ =~= s@.skip(start as int));
        assert(rest@.len() > 0 ==> rest@[0] == s@[start as int]);
    }
    let n = trimmed_end_ws_len(rest);
    rest.substring_char(0, n)
}

/// The string without trailing whitespace (`str::trim_end`).
pub fn trim_end(s: &str) -> (r: &str)
    ensures
        r@ == trim_end_spec(s@),
{
    let n = trimmed_end_ws_len(s);
    s.substring_char(0, n)
}

/// The string without its trailing `c` characters (`str::trim_end_matches`
/// with a character pattern).
pub fn trim_end_matches_char(s: &str, c: char) -> (r: &str)
    ensures
        r@ == trim_end_char(s@, c),
{
    let n = trimmed_end_char_len(s, c);
    s.substring_char(0, n)
}

/// Whether `s` begins with `prefix`.
pub fn starts_with(s: &str, prefix: &str) -> (b: bool)
    ensures
        b == (prefix@.len() <= s@.len() && s@.take(prefix@.len() as int) == prefix@),
{
    let n = prefix.unicode_len();
    if n > s.unicode_len() {
        return false;
    }
    let mut i: usize = 0;
    while i < n
        invariant
            n == prefix@.len(),
            n <= s@.len(),
            i <= n,
            forall|j: int| 0 <= j < i ==> s@[j] == prefix@[j],
        decreases n - i,
    {
        if s.get_char(i) != prefix.get_char(i) {
            proof {
                assert(s@.take(n as int)[i as int] != prefix@[i as int]);
            }
            return false;
        }
        i += 1;
    }
    proof {
        assert(s@.take(n as int) =~= prefix@);
    }
    true
}

/// Whether `needle` occurs in `s` at position `i`.
pub open spec fn occurs_at(s: Seq<char>, needle: Seq<char>, i: int) -> bool {
    0 <= i && i + needle.len() <= s.len() && s.subrange(i, i + needle.len()) == needle
}

/// Whether `needle` occurs anywhere in `s` (`str::contains` with a string pattern).
pub fn contains_str(s: &str, needle: &str) -> (b: bool)
    ensures
        b == exists|i: int| occurs_at(s@, needle@, i),
{
    let n = needle.unicode_len();
    let len = s.unicode_len();
    if n > len {
        proof {
            assert forall|i: int| !occurs_at(s@, needle@, i) by {}
        }
        return false;
    }
    let mut i: usize = 0;
    while i <= len - n
        invariant
            n == needle@.len(),
            len == s@.len(),
            n <= len,
            i <= len - n + 1,
            forall|j: int| 0 <= j < i ==> !occurs_at(s@, needle@, j),
        decreases len - n + 1 - i,
    {
        let mut k: usize = 0;
        let mut same = true;
        while k < n
            invariant
                n == needle@.len(),
                len == s@.len(),
                i + n <= len,
                k <= n,
                same == forall|j: int| 0 <= j < k ==> s@[i + j] == needle@[j],
            decreases n - k,
        {
            if s.get_char(i + k) != needle.get_char(k) {
                same = false;
            }
            k += 1;
        }
        if same {
            proof {
                assert(s@.subrange(i as int, i + n) =~= needle@);
                assert(occurs_at(s@, needle@, i as int));
            }
            return true;
        }
        proof {
            assert(!occurs_at(s@, needle@, i as int)) by {
                if occurs_at(s@, needle@, i as int) {
                    assert forall|j: int| 0 <= j < n implies s@[i + j] == needle@[j] by {
                        assert(s@.subrange(i as int, i + n)[j] == s@[i + j]);
                    }
                }
            }
        }
        i += 1;
    }
    proof {
        assert forall|j: int| !occurs_at(s@, needle@, j) by {
            if 0 <= j && j + n <= len {
                assert(j < i);
            }
        }
    }
    false
}

} // verus!

//! Character-level text helpers shared by the codec and the transport
//! decisions: bridges between `String` and character vectors, and a few
//! verified string predicates.

use vstd::prelude::*;
use vstd::string::*;

verus! {

/// Relies on `String: FromIterator<char>` (`collect`): the string made of
/// exactly the characters of the vector, in order.
#[verifier::external_body]
pub fn chars_to_string(v: &Vec<char>) -> (r: String)
    ensures
        r@ == v@,
{
    v.iter().collect()
}

/// Relies on `str::chars` and `Vec: FromIterator<char>` (`collect`): the
/// characters of the string, in order.
#[verifier::external_body]
pub fn str_to_chars(s: &str) -> (r: Vec<char>)
    ensures
        r@ == s@,
{
    s.chars().collect()
}

/// Relies on `char::from_u32`: `Some` exactly for Unicode scalar values,
/// `None` for surrogate code points and values past the last code point.
#[verifier::external_body]
pub fn char_from_u32(v: u32) -> (r: Option<char>)
    ensures
        (v < 0xD800 || (0xE000 <= v && v < 0x110000)) ==> r == Some(v as char),
        ((0xD800 <= v && v < 0xE000) || v >= 0x110000) ==> r is None,
{
    char::from_u32(v)
}

/// Whether `p` is a prefix of `s`.
pub open spec fn seq_starts_with(s: Seq<char>, p: Seq<char>) -> bool {
    p.len() <= s.len() && s.subrange(0, p.len() as int) == p
}

/// Exact string equality against a borrowed string.
pub fn str_eq(a: &str, b: &str) -> (r: bool)
    ensures
        r == (a@ == b@),
{
    let sa = String::from_str(a);
    let sb = String::from_str(b);
    sa == sb
}

/// Whether the string starts with the given prefix.
pub fn str_starts_with(s: &str, prefix: &str) -> (r: bool)
    ensures
        r == seq_starts_with(s@, prefix@),
{
    let n = prefix.unicode_len();
    let m = s.unicode_len();
    if n > m {
        return false;
    }
    let mut i: usize = 0;
    while i < n
        invariant
            i <= n,
            n <= m,
            n == prefix@.len(),
            m == s@.len(),
            forall|k: int| 0 <= k < i ==> s@[k] == prefix@[k],
        decreases n - i,
    {
        if s.get_char(i) != prefix.get_char(i) {
            assert(s@[i as int] != prefix@[i as int]);
            assert(!seq_starts_with(s@, prefix@)) by {
                assert(s@.subrange(0, prefix@.len() as int)[i as int] == s@[i as int]);
            }
            return false;
        }
        i = i + 1;
    }
    assert(s@.subrange(0, prefix@.len() as int) =~= prefix@);
    true
}

/// Whether `needle` occurs as a contiguous part of `s`.
pub open spec fn seq_contains(s: Seq<char>, needle: Seq<char>) -> bool {
    exists|k: int|
        0 <= k && k + needle.len() <= s.len() && #[trigger] s.subrange(
            k,
            k + needle.len() as int,
        ) == needle
}

/// Whether the string contains the given substring.
pub fn str_contains(s: &str, needle: &str) -> (r: bool)
    ensures
        r == seq_contains(s@, needle@),
{
    let n = needle.unicode_len();
    let m = s.unicode_len();
    if n > m {
        assert(!seq_contains(s@, needle@));
        return false;
    }
    let mut k: usize = 0;
    while k <= m - n
        invariant
            n <= m,
            n == needle@.len(),
            m == s@.len(),
            k <= m - n + 1,
            forall|q: int|
                0 <= q < k ==> #[trigger] s@.subrange(q, q + needle@.len() as int) != needle@,
        decreases m + 1 - n - k,
    {
        let mut i: usize = 0;
        let mut hit = true;
        let ghost mut bad: int = 0;
        while i < n
            invariant
                i <= n,
                k + n <= m,
                n == needle@.len(),
                m == s@.len(),
                hit ==> forall|q: int| 0 <= q < i ==> s@[k + q] == needle@[q],
                !hit ==> 0 <= bad < n && s@[k + bad] != needle@[bad],
            decreases n - i,
        {
            if s.get_char(k + i) != needle.get_char(i) {
                hit = false;
                proof {
                    bad = i as int;
                }
                i = n;
            } else {
                i = i + 1;
            }
        }
        if hit {
            assert(s@.subrange(k as int, k + needle@.len() as int) =~= needle@);
            return true;
        }
        assert(s@.subrange(k as int, k + needle@.len() as int) != needle@) by {
            assert(s@.subrange(k as int, k + needle@.len() as int)[bad] == s@[k + bad]);
        }
        k = k + 1;
    }
    assert(forall|q: int|
        0 <= q && q + needle@.len() <= s@.len() ==> #[trigger] s@.subrange(
            q,
            q + needle@.len() as int,
        ) != needle@);
    false
}

} // verus!

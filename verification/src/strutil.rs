//! Small verified string primitives used across the engine: character
//! appends, equality, substring search, suffix tests, truncation and
//! ASCII lowercasing.

use vstd::prelude::*;

verus! {

/// Relies on std's String::push: appends exactly one character.
#[verifier::external_body]
pub fn push_char(s: &mut String, c: char)
    ensures
        final(s)@ == old(s)@ + seq![c],
{
    s.push(c);
}

/// Character-wise equality of two string slices.
pub fn str_eq(a: &str, b: &str) -> (r: bool)
    ensures
        r == (a@ == b@),
{
    let alen = a.unicode_len();
    let blen = b.unicode_len();
    if alen != blen {
        assert(a@ != b@);
        return false;
    }
    let mut i: usize = 0;
    while i < alen
        invariant
            alen == a@.len(),
            blen == b@.len(),
            alen == blen,
            i <= alen,
            forall|j: int| 0 <= j < i ==> a@[j] == b@[j],
        decreases alen - i,
    {
        if a.get_char(i) != b.get_char(i) {
            assert(a@[i as int] != b@[i as int]);
            return false;
        }
        i += 1;
    }
    assert(a@ =~= b@);
    true
}

/// `pat` occurs in `s` starting at position `i`.
pub open spec fn match_at(s: Seq<char>, pat: Seq<char>, i: int) -> bool {
    0 <= i && i + pat.len() <= s.len() && s.subrange(i, i + pat.len() as int) == pat
}

/// `pat` occurs somewhere in `s`.
pub open spec fn spec_contains(s: Seq<char>, pat: Seq<char>) -> bool {
    exists|i: int| match_at(s, pat, i)
}

pub fn match_here(s: &str, pat: &str, at: usize) -> (r: bool)
    requires
        at + pat@.len() <= s@.len(),
    ensures
        r == match_at(s@, pat@, at as int),
{
    let slen = s.unicode_len();
    let plen = pat.unicode_len();
    let mut j: usize = 0;
    while j < plen
        invariant
            slen == s@.len(),
            plen == pat@.len(),
            at + plen <= slen,
            j <= plen,
            forall|k: int| 0 <= k < j ==> s@[at + k] == pat@[k],
        decreases plen - j,
    {
        if s.get_char(at + j) != pat.get_char(j) {
            assert(s@[at + j] != pat@[j as int]);
            assert(!match_at(s@, pat@, at as int)) by {
                if match_at(s@, pat@, at as int) {
                    assert(s@.subrange(at as int, at + plen)[j as int] == pat@[j as int]);
                }
            }
            return false;
        }
        j += 1;
    }
    assert(s@.subrange(at as int, at + plen) =~= pat@);
    true
}

/// Substring search: does `pat` occur anywhere in `s`?
pub fn str_contains(s: &str, pat: &str) -> (r: bool)
    ensures
        r == spec_contains(s@, pat@),
{
    let slen = s.unicode_len();
    let plen = pat.unicode_len();
    if plen > slen {
        assert(!spec_contains(s@, pat@)) by {
            if spec_contains(s@, pat@) {
                let i = choose|i: int| match_at(s@, pat@, i);
            }
        }
        return false;
    }
    if plen == 0 {
        assert(s@.subrange(0, 0) =~= pat@);
        assert(match_at(s@, pat@, 0));
        return true;
    }
    let mut i: usize = 0;
    while i <= slen - plen
        invariant
            slen == s@.len(),
            plen == pat@.len(),
            0 < plen <= slen,
            i <= slen - plen + 1,
            forall|k: int| 0 <= k < i ==> !match_at(s@, pat@, k),
        decreases slen - i,
    {
        if match_here(s, pat, i) {
            return true;
        }
        i += 1;
    }
    assert(!spec_contains(s@, pat@)) by {
        if spec_contains(s@, pat@) {
            let k = choose|k: int| match_at(s@, pat@, k);
        }
    }
    false
}

/// `s` ends with the suffix `pat`.
pub open spec fn spec_ends_with(s: Seq<char>, pat: Seq<char>) -> bool {
    s.len() >= pat.len() && s.subrange(s.len() - pat.len(), s.len() as int) == pat
}

/// Suffix test.
pub fn str_ends_with(s: &str, pat: &str) -> (r: bool)
    ensures
        r == spec_ends_with(s@, pat@),
{
    let slen = s.unicode_len();
    let plen = pat.unicode_len();
    if plen > slen {
        return false;
    }
    match_here(s, pat, slen - plen)
}

/// The first `n` characters of `s` (all of it when `n` exceeds its length).
pub fn truncate_chars(s: &str, n: usize) -> (r: String)
    ensures
        r@ == s@.take(if n <= s@.len() { n as int } else { s@.len() as int }),
{
    let slen = s.unicode_len();
    let take: usize = if n <= slen {
        n
    } else {
        slen
    };
    let mut out = String::new();
    let mut i: usize = 0;
    while i < take
        invariant
            slen == s@.len(),
            take <= slen,
            i <= take,
            out@ =~= s@.take(take as int).take(i as int),
        decreases take - i,
    {
        let c = s.get_char(i);
        push_char(&mut out, c);
        assert(out@ =~= s@.take(take as int).take(i + 1));
        i += 1;
    }
    assert(s@.take(take as int).take(take as int) =~= s@.take(take as int));
    out
}

/// ASCII lowercasing of one character: upper-case letters move down by 32.
pub open spec fn lower_char(c: char) -> char {
    if 65 <= c as u32 <= 90 {
        (((c as u32 + 32) as u8) as char)
    } else {
        c
    }
}

/// ASCII lowercase of a whole string.
pub fn ascii_lowercase(s: &str) -> (r: String)
    requires
        s.is_ascii(),
    ensures
        r@ == s@.map_values(|c: char| lower_char(c)),
{
    let slen = s.unicode_len();
    let mut out = String::new();
    let mut i: usize = 0;
    while i < slen
        invariant
            slen == s@.len(),
            s.is_ascii(),
            i <= slen,
            out@ =~= s@.take(i as int).map_values(|c: char| lower_char(c)),
        decreases slen - i,
    {
        let b = s.get_ascii(i);
        let lc: char = if 65 <= b && b <= 90 {
            ((b + 32) as char)
        } else {
            (b as char)
        };
        proof {
            assert(s@[i as int] as u8 == b);
            assert((s@[i as int] as u32) < 128);
            assert(lc == lower_char(s@[i as int]));
        }
        push_char(&mut out, lc);
        assert(out@ =~= s@.take(i + 1).map_values(|c: char| lower_char(c)));
        i += 1;
    }
    assert(s@.take(slen as int) =~= s@);
    out
}

} // verus!

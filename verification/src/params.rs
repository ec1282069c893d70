//! Signing parameter maps: the canonical payload `k=v&k=v&…` over
//! keys in strictly increasing lexicographic order, so that the
//! signature depends on the parameters alone and never on the order a
//! caller supplied or iterated them in.

use vstd::prelude::*;
use crate::assoc::assoc_map_of;

verus! {

/// Strict lexicographic order on character sequences, by code point.
pub open spec fn lex_lt(a: Seq<char>, b: Seq<char>) -> bool
    decreases a.len(),
{
    if b.len() == 0 {
        false
    } else if a.len() == 0 {
        true
    } else if a[0] != b[0] {
        (a[0] as u32) < (b[0] as u32)
    } else {
        lex_lt(a.drop_first(), b.drop_first())
    }
}

/// Exactly one of `a < b`, `a == b`, `b < a` holds.
pub proof fn lemma_lex_trichotomy(a: Seq<char>, b: Seq<char>)
    ensures
        lex_lt(a, b) || lex_lt(b, a) || a == b,
        lex_lt(a, b) ==> !lex_lt(b, a) && a != b,
        lex_lt(b, a) ==> !lex_lt(a, b) && a != b,
    decreases a.len(),
{
    if a.len() == 0 || b.len() == 0 {
        if a.len() == 0 && b.len() == 0 {
            assert(a =~= b);
        }
    } else if a[0] == b[0] {
        lemma_lex_trichotomy(a.drop_first(), b.drop_first());
        if a.drop_first() == b.drop_first() {
            assert forall|i: int| 0 <= i < a.len() implies a[i] == b[i] by {
                if i > 0 {
                    assert(a.drop_first()[i - 1] == a[i]);
                    assert(b.drop_first()[i - 1] == b[i]);
                }
            }
            assert(a =~= b);
        }
        if a == b {
            assert(a.drop_first() =~= b.drop_first());
        }
    } else {
        if !((a[0] as u32) < (b[0] as u32)) && !((b[0] as u32) < (a[0] as u32)) {
            assert((a[0] as u32) == (b[0] as u32));
            vstd::utf8::char_u32_cast(a[0], a[0] as u32);
            vstd::utf8::char_u32_cast(b[0], b[0] as u32);
            assert(a[0] == b[0]);
        }
    }
}

/// Lexicographic order is transitive.
pub proof fn lemma_lex_transitive(a: Seq<char>, b: Seq<char>, c: Seq<char>)
    requires
        lex_lt(a, b),
        lex_lt(b, c),
    ensures
        lex_lt(a, c),
    decreases a.len(),
{
    if a.len() == 0 {
    } else {
        if a[0] == b[0] && b[0] == c[0] {
            lemma_lex_transitive(a.drop_first(), b.drop_first(), c.drop_first());
        }
    }
}

/// Keys strictly increase left to right.
pub open spec fn sorted_strict(s: Seq<(Seq<char>, Seq<char>)>) -> bool {
    forall|i: int| 0 <= i < s.len() - 1 ==> lex_lt(#[trigger] s[i].0, s[i + 1].0)
}

/// In a strictly sorted sequence every earlier key is below every
/// later one.
pub proof fn lemma_sorted_global(s: Seq<(Seq<char>, Seq<char>)>, i: int, j: int)
    requires
        sorted_strict(s),
        0 <= i < j < s.len(),
    ensures
        lex_lt(s[i].0, s[j].0),
    decreases j - i,
{
    if i + 1 == j {
    } else {
        lemma_sorted_global(s, i, j - 1);
        lemma_lex_transitive(s[i].0, s[j - 1].0, s[j].0);
    }
}

/// A key occurs in an association sequence iff the map it denotes
/// holds it.
pub proof fn lemma_assoc_contains(s: Seq<(Seq<char>, Seq<char>)>, k: Seq<char>)
    ensures
        assoc_map_of(s).contains_key(k) <==> exists|i: int| 0 <= i < s.len() && s[i].0 == k,
    decreases s.len(),
{
    if s.len() > 0 {
        lemma_assoc_contains(s.drop_last(), k);
        if s.last().0 == k {
            assert(s[s.len() - 1].0 == k);
        } else if assoc_map_of(s).contains_key(k) {
            let i = choose|i: int| 0 <= i < s.drop_last().len() && s.drop_last()[i].0 == k;
            assert(s[i].0 == k);
        } else if exists|i: int| 0 <= i < s.len() && s[i].0 == k {
            let i = choose|i: int| 0 <= i < s.len() && s[i].0 == k;
            assert(s.drop_last()[i].0 == k);
        }
    }
}

/// Two strictly sorted association sequences denoting the same map
/// are the same sequence: the canonical form is unique.
pub proof fn lemma_sorted_canonical(s1: Seq<(Seq<char>, Seq<char>)>, s2: Seq<(Seq<char>, Seq<char>)>)
    requires
        sorted_strict(s1),
        sorted_strict(s2),
        assoc_map_of(s1) == assoc_map_of(s2),
    ensures
        s1 == s2,
    decreases s1.len(),
{
    if s1.len() == 0 {
        if s2.len() > 0 {
            lemma_assoc_contains(s2, s2.last().0);
            lemma_assoc_contains(s1, s2.last().0);
            assert(s2[s2.len() - 1].0 == s2.last().0);
        }
        assert(s1 =~= s2);
    } else if s2.len() == 0 {
        lemma_assoc_contains(s1, s1.last().0);
        lemma_assoc_contains(s2, s1.last().0);
        assert(s1[s1.len() - 1].0 == s1.last().0);
    } else {
        let k1 = s1.last().0;
        let k2 = s2.last().0;
        // The last key of each is the other's key too, and each is
        // maximal, so the two last keys coincide.
        lemma_assoc_contains(s1, k2);
        lemma_assoc_contains(s2, k1);
        assert(s1[s1.len() - 1].0 == k1);
        assert(s2[s2.len() - 1].0 == k2);
        let i1 = choose|i: int| 0 <= i < s1.len() && s1[i].0 == k2;
        let i2 = choose|i: int| 0 <= i < s2.len() && s2[i].0 == k1;
        if i1 < s1.len() - 1 {
            lemma_sorted_global(s1, i1, s1.len() - 1);
        }
        if i2 < s2.len() - 1 {
            lemma_sorted_global(s2, i2, s2.len() - 1);
        }
        lemma_lex_trichotomy(k1, k2);
        assert(k1 == k2);
        // Strict sortedness keeps the last key out of the prefix, so
        // both maps give the last pair's value.
        lemma_key_not_in_sorted_prefix(s1);
        lemma_key_not_in_sorted_prefix(s2);
        assert(assoc_map_of(s1)[k1] == s1.last().1);
        assert(assoc_map_of(s2)[k2] == s2.last().1);
        assert(s1.last() == s2.last());
        // The prefixes denote the same map: the full maps without k1.
        assert(assoc_map_of(s1.drop_last()) =~= assoc_map_of(s1).remove(k1));
        assert(assoc_map_of(s2.drop_last()) =~= assoc_map_of(s2).remove(k1));
        assert(sorted_strict(s1.drop_last())) by {
            assert(forall|i: int|
                0 <= i < s1.drop_last().len() - 1 ==> lex_lt(
                    #[trigger] s1.drop_last()[i].0,
                    s1.drop_last()[i + 1].0,
                ));
        }
        assert(sorted_strict(s2.drop_last())) by {
            assert(forall|i: int|
                0 <= i < s2.drop_last().len() - 1 ==> lex_lt(
                    #[trigger] s2.drop_last()[i].0,
                    s2.drop_last()[i + 1].0,
                ));
        }
        lemma_sorted_canonical(s1.drop_last(), s2.drop_last());
        assert forall|i: int| 0 <= i < s1.len() implies s1[i] == s2[i] by {
            if i < s1.len() - 1 {
                assert(s1.drop_last()[i] == s1[i]);
                assert(s2.drop_last()[i] == s2[i]);
            }
        }
        assert(s1 =~= s2);
    }
}

/// In a strictly sorted sequence the last key is absent from the
/// prefix, so the denoted map binds it to the last value.
proof fn lemma_key_not_in_sorted_prefix(s: Seq<(Seq<char>, Seq<char>)>)
    requires
        sorted_strict(s),
        s.len() > 0,
    ensures
        !assoc_map_of(s.drop_last()).contains_key(s.last().0),
        assoc_map_of(s)[s.last().0] == s.last().1,
{
    let k = s.last().0;
    lemma_assoc_contains(s.drop_last(), k);
    if assoc_map_of(s.drop_last()).contains_key(k) {
        let i = choose|i: int| 0 <= i < s.drop_last().len() && s.drop_last()[i].0 == k;
        lemma_sorted_global(s, i, s.len() - 1);
        lemma_lex_trichotomy(s[i].0, k);
    }
}

/// Insert a pair into a sorted sequence: before the first larger key,
/// replacing an equal one.
pub open spec fn spec_insert_pair(
    p: (Seq<char>, Seq<char>),
    s: Seq<(Seq<char>, Seq<char>)>,
) -> Seq<(Seq<char>, Seq<char>)>
    decreases s.len(),
{
    if s.len() == 0 {
        seq![p]
    } else if lex_lt(p.0, s[0].0) {
        seq![p] + s
    } else if p.0 == s[0].0 {
        seq![p] + s.drop_first()
    } else {
        seq![s[0]] + spec_insert_pair(p, s.drop_first())
    }
}

/// The canonical ordering of an association sequence: insert each
/// pair in turn, later bindings replacing earlier ones.
pub open spec fn spec_sort_pairs(s: Seq<(Seq<char>, Seq<char>)>) -> Seq<(Seq<char>, Seq<char>)>
    decreases s.len(),
{
    if s.len() == 0 {
        Seq::empty()
    } else {
        spec_insert_pair(s.last(), spec_sort_pairs(s.drop_last()))
    }
}

/// Inserting keeps the sequence sorted and denotes the updated map.
pub proof fn lemma_insert_pair_sorted(p: (Seq<char>, Seq<char>), s: Seq<(Seq<char>, Seq<char>)>)
    requires
        sorted_strict(s),
    ensures
        sorted_strict(spec_insert_pair(p, s)),
        assoc_map_of(spec_insert_pair(p, s)) == assoc_map_of(s).insert(p.0, p.1),
    decreases s.len(),
{
    let r = spec_insert_pair(p, s);
    if s.len() == 0 {
        assert(r =~= seq![p]);
        assert(r.drop_last() =~= s);
        assert(r.last() == p);
        assert(assoc_map_of(r) == assoc_map_of(r.drop_last()).insert(r.last().0, r.last().1));
        assert(assoc_map_of(r) == assoc_map_of(s).insert(p.0, p.1));
    } else if lex_lt(p.0, s[0].0) {
        assert(r =~= seq![p] + s);
        assert(sorted_strict(r)) by {
            assert(forall|i: int| 1 <= i < r.len() ==> r[i] == s[i - 1]);
            assert(forall|i: int|
                1 <= i < r.len() - 1 ==> lex_lt(#[trigger] r[i].0, r[i + 1].0));
            assert(r[0] == p && r.len() > 1 && r[1] == s[0]);
        }
        lemma_prepend_map(p, s);
        lemma_assoc_contains(s, p.0);
        assert(!assoc_map_of(s).contains_key(p.0)) by {
            if assoc_map_of(s).contains_key(p.0) {
                let i = choose|i: int| 0 <= i < s.len() && s[i].0 == p.0;
                if i > 0 {
                    lemma_sorted_global(s, 0, i);
                }
                lemma_lex_trichotomy(p.0, s[0].0);
                if i > 0 {
                    lemma_lex_transitive(p.0, s[0].0, s[i].0);
                    lemma_lex_trichotomy(p.0, s[i].0);
                }
            }
        }
        assert(assoc_map_of(r) =~= assoc_map_of(s).insert(p.0, p.1));
    } else if p.0 == s[0].0 {
        assert(r =~= seq![p] + s.drop_first());
        assert(sorted_strict(s.drop_first())) by {
            assert(forall|i: int|
                0 <= i < s.drop_first().len() - 1 ==> lex_lt(
                    #[trigger] s.drop_first()[i].0,
                    s.drop_first()[i + 1].0,
                ));
        }
        assert(sorted_strict(r)) by {
            assert(forall|i: int| 1 <= i < r.len() ==> r[i] == s.drop_first()[i - 1]);
            assert(forall|i: int|
                1 <= i < r.len() - 1 ==> lex_lt(#[trigger] r[i].0, r[i + 1].0));
            if r.len() > 1 {
                assert(r[1] == s[1]);
                assert(lex_lt(s[0].0, s[1].0));
            }
        }
        lemma_prepend_map(p, s.drop_first());
        lemma_assoc_contains(s.drop_first(), p.0);
        assert(!assoc_map_of(s.drop_first()).contains_key(p.0)) by {
            if assoc_map_of(s.drop_first()).contains_key(p.0) {
                let i = choose|i: int|
                    0 <= i < s.drop_first().len() && s.drop_first()[i].0 == p.0;
                lemma_sorted_global(s, 0, i + 1);
                lemma_lex_trichotomy(s[0].0, s[i + 1].0);
            }
        }
        lemma_skip_first_map(s);
        assert(assoc_map_of(r) =~= assoc_map_of(s).insert(p.0, p.1));
    } else {
        lemma_lex_trichotomy(p.0, s[0].0);
        assert(lex_lt(s[0].0, p.0));
        assert(sorted_strict(s.drop_first())) by {
            assert(forall|i: int|
                0 <= i < s.drop_first().len() - 1 ==> lex_lt(
                    #[trigger] s.drop_first()[i].0,
                    s.drop_first()[i + 1].0,
                ));
        }
        lemma_insert_pair_sorted(p, s.drop_first());
        let t = spec_insert_pair(p, s.drop_first());
        assert(r =~= seq![s[0]] + t);
        // The head stays below everything inserted after it.
        assert(t.len() > 0);
        assert(sorted_strict(r)) by {
            assert(forall|i: int| 1 <= i < r.len() ==> r[i] == t[i - 1]);
            assert(forall|i: int|
                1 <= i < r.len() - 1 ==> lex_lt(#[trigger] r[i].0, r[i + 1].0));
            assert(lex_lt(r[0].0, r[1].0)) by {
                lemma_insert_head_bound(p, s);
            }
        }
        lemma_prepend_map(s[0], t);
        lemma_assoc_contains(t, s[0].0);
        assert(!assoc_map_of(t).contains_key(s[0].0)) by {
            if assoc_map_of(t).contains_key(s[0].0) {
                let i = choose|i: int| 0 <= i < t.len() && t[i].0 == s[0].0;
                lemma_insert_members(p, s.drop_first(), i);
                lemma_lex_trichotomy(s[0].0, p.0);
                if exists|j: int| 0 <= j < s.drop_first().len() && s.drop_first()[j].0 == s[0].0 {
                    let j = choose|j: int|
                        0 <= j < s.drop_first().len() && s.drop_first()[j].0 == s[0].0;
                    lemma_sorted_global(s, 0, j + 1);
                    lemma_lex_trichotomy(s[0].0, s[j + 1].0);
                }
            }
        }
        lemma_skip_first_map(s);
        assert(assoc_map_of(r) =~= assoc_map_of(s).insert(p.0, p.1));
    }
}

/// Every entry of an insertion result is the inserted pair or one of
/// the originals.
proof fn lemma_insert_members(
    p: (Seq<char>, Seq<char>),
    s: Seq<(Seq<char>, Seq<char>)>,
    i: int,
)
    requires
        0 <= i < spec_insert_pair(p, s).len(),
    ensures
        spec_insert_pair(p, s)[i] == p || exists|j: int|
            0 <= j < s.len() && s[j] == spec_insert_pair(p, s)[i],
    decreases s.len(),
{
    let r = spec_insert_pair(p, s);
    if s.len() == 0 {
    } else if lex_lt(p.0, s[0].0) {
        if i > 0 {
            assert(r[i] == s[i - 1]);
        }
    } else if p.0 == s[0].0 {
        if i > 0 {
            assert(r[i] == s.drop_first()[i - 1]);
            assert(s[i] == s.drop_first()[i - 1]);
        }
    } else {
        if i == 0 {
            assert(r[0] == s[0]);
        } else {
            lemma_insert_members(p, s.drop_first(), i - 1);
            assert(r[i] == spec_insert_pair(p, s.drop_first())[i - 1]);
            if spec_insert_pair(p, s.drop_first())[i - 1] != p {
                let j = choose|j: int|
                    0 <= j < s.drop_first().len() && s.drop_first()[j] == spec_insert_pair(
                        p,
                        s.drop_first(),
                    )[i - 1];
                assert(s[j + 1] == r[i]);
            }
        }
    }
}

/// The head of an insertion into the tail of a sorted sequence is
/// above the original head.
proof fn lemma_insert_head_bound(p: (Seq<char>, Seq<char>), s: Seq<(Seq<char>, Seq<char>)>)
    requires
        sorted_strict(s),
        s.len() > 0,
        lex_lt(s[0].0, p.0),
    ensures
        lex_lt(s[0].0, spec_insert_pair(p, s.drop_first())[0].0),
{
    let t = s.drop_first();
    if t.len() == 0 {
    } else if lex_lt(p.0, t[0].0) {
    } else if p.0 == t[0].0 {
    } else {
        assert(spec_insert_pair(p, t)[0] == t[0]);
        assert(lex_lt(s[0].0, s[1].0));
        assert(t[0] == s[1]);
    }
}

proof fn lemma_prepend_map(p: (Seq<char>, Seq<char>), s: Seq<(Seq<char>, Seq<char>)>)
    ensures
        assoc_map_of(seq![p] + s) == if assoc_map_of(s).contains_key(p.0) {
            assoc_map_of(s)
        } else {
            assoc_map_of(s).insert(p.0, p.1)
        },
    decreases s.len(),
{
    let r = seq![p] + s;
    if s.len() == 0 {
        assert(r.drop_last() =~= s);
        assert(r.last() == p);
        if assoc_map_of(s).contains_key(p.0) {
        } else {
            assert(assoc_map_of(r) == assoc_map_of(r.drop_last()).insert(r.last().0, r.last().1));
            assert(assoc_map_of(r) == assoc_map_of(s).insert(p.0, p.1));
        }
    } else {
        lemma_prepend_map(p, s.drop_last());
        assert(r.drop_last() =~= seq![p] + s.drop_last());
        assert(r.last() == s.last());
        lemma_assoc_contains(s, p.0);
        lemma_assoc_contains(s.drop_last(), p.0);
        if assoc_map_of(s).contains_key(p.0) {
            if assoc_map_of(s.drop_last()).contains_key(p.0) {
                assert(assoc_map_of(r) =~= assoc_map_of(s));
            } else {
                assert(s.last().0 == p.0) by {
                    let i = choose|i: int| 0 <= i < s.len() && s[i].0 == p.0;
                    if i < s.len() - 1 {
                        assert(s.drop_last()[i].0 == p.0);
                    }
                }
                assert(assoc_map_of(r) =~= assoc_map_of(s));
            }
        } else {
            assert(!assoc_map_of(s.drop_last()).contains_key(p.0)) by {
                if assoc_map_of(s.drop_last()).contains_key(p.0) {
                    let i = choose|i: int|
                        0 <= i < s.drop_last().len() && s.drop_last()[i].0 == p.0;
                    assert(s[i].0 == p.0);
                }
            }
            assert(s.last().0 != p.0) by {
                assert(s[s.len() - 1].0 == s.last().0);
            }
            assert(assoc_map_of(r) =~= assoc_map_of(s).insert(p.0, p.1));
        }
    }
}

proof fn lemma_skip_first_map(s: Seq<(Seq<char>, Seq<char>)>)
    requires
        s.len() > 0,
    ensures
        assoc_map_of(s) == if assoc_map_of(s.drop_first()).contains_key(s[0].0) {
            assoc_map_of(s.drop_first())
        } else {
            assoc_map_of(s.drop_first()).insert(s[0].0, s[0].1)
        },
{
    assert(s =~= seq![s[0]] + s.drop_first());
    lemma_prepend_map(s[0], s.drop_first());
}

/// Sorting canonicalises: the result is strictly sorted and denotes
/// the same map.
pub proof fn lemma_sort_pairs_canonical(s: Seq<(Seq<char>, Seq<char>)>)
    ensures
        sorted_strict(spec_sort_pairs(s)),
        assoc_map_of(spec_sort_pairs(s)) == assoc_map_of(s),
    decreases s.len(),
{
    if s.len() == 0 {
    } else {
        lemma_sort_pairs_canonical(s.drop_last());
        lemma_insert_pair_sorted(s.last(), spec_sort_pairs(s.drop_last()));
    }
}

/// Parameter sequences denoting the same map sort to the same
/// canonical sequence: the signing payload is independent of the
/// order the parameters arrived in.
pub proof fn lemma_sort_determined_by_map(
    p1: Seq<(Seq<char>, Seq<char>)>,
    p2: Seq<(Seq<char>, Seq<char>)>,
)
    requires
        assoc_map_of(p1) == assoc_map_of(p2),
    ensures
        spec_sort_pairs(p1) == spec_sort_pairs(p2),
{
    lemma_sort_pairs_canonical(p1);
    lemma_sort_pairs_canonical(p2);
    lemma_sorted_canonical(spec_sort_pairs(p1), spec_sort_pairs(p2));
}

proof fn lemma_lex_skip(a: Seq<char>, b: Seq<char>, i: int)
    requires
        0 <= i <= a.len(),
        i <= b.len(),
        forall|j: int| 0 <= j < i ==> a[j] == b[j],
    ensures
        lex_lt(a, b) == lex_lt(a.skip(i), b.skip(i)),
    decreases i,
{
    if i == 0 {
        assert(a.skip(0) =~= a);
        assert(b.skip(0) =~= b);
    } else {
        assert(a[0] == b[0]);
        lemma_lex_skip(a.drop_first(), b.drop_first(), i - 1);
        assert(a.drop_first().skip(i - 1) =~= a.skip(i));
        assert(b.drop_first().skip(i - 1) =~= b.skip(i));
        assert(forall|j: int|
            0 <= j < i - 1 ==> a.drop_first()[j] == (#[trigger] a[j + 1]) && b.drop_first()[j] == b[
                j + 1]);
    }
}

/// Is `a` strictly below `b` in lexicographic order?
pub fn str_lex_lt(a: &str, b: &str) -> (r: bool)
    ensures
        r == lex_lt(a@, b@),
{
    let alen = a.unicode_len();
    let blen = b.unicode_len();
    let mut i: usize = 0;
    loop
        invariant
            alen == a@.len(),
            blen == b@.len(),
            i <= alen,
            i <= blen,
            forall|j: int| 0 <= j < i ==> a@[j] == b@[j],
        decreases alen - i,
    {
        proof {
            lemma_lex_skip(a@, b@, i as int);
        }
        if i >= alen {
            return i < blen;
        }
        if i >= blen {
            return false;
        }
        let ca = a.get_char(i);
        let cb = b.get_char(i);
        if ca == cb {
            i += 1;
        } else {
            proof {
                assert(a@.skip(i as int)[0] == a@[i as int]);
                assert(b@.skip(i as int)[0] == b@[i as int]);
            }
            return (ca as u32) < (cb as u32);
        }
    }
}

/// The pairs a parameter vector denotes.
pub open spec fn pairs_view(v: Seq<(String, String)>) -> Seq<(Seq<char>, Seq<char>)> {
    v.map_values(|p: (String, String)| (p.0@, p.1@))
}

proof fn lemma_insert_shift(p: (Seq<char>, Seq<char>), s: Seq<(Seq<char>, Seq<char>)>, j: int)
    requires
        0 <= j <= s.len(),
        forall|k: int| 0 <= k < j ==> lex_lt((#[trigger] s[k]).0, p.0),
    ensures
        spec_insert_pair(p, s) == s.take(j) + spec_insert_pair(p, s.skip(j)),
    decreases j,
{
    if j == 0 {
        assert(s.take(0) =~= Seq::<(Seq<char>, Seq<char>)>::empty());
        assert(s.skip(0) =~= s);
        assert(s.take(0) + spec_insert_pair(p, s) =~= spec_insert_pair(p, s));
    } else {
        assert(lex_lt(s[0].0, p.0));
        lemma_lex_trichotomy(p.0, s[0].0);
        assert(spec_insert_pair(p, s) == seq![s[0]] + spec_insert_pair(p, s.drop_first()));
        assert(forall|k: int|
            0 <= k < j - 1 ==> s.drop_first()[k] == (#[trigger] s[k + 1]));
        lemma_insert_shift(p, s.drop_first(), j - 1);
        assert(s.drop_first().take(j - 1) =~= s.take(j).drop_first());
        assert(s.drop_first().skip(j - 1) =~= s.skip(j));
        assert(seq![s[0]] + (s.take(j).drop_first() + spec_insert_pair(p, s.skip(j))) =~= s.take(j)
            + spec_insert_pair(p, s.skip(j)));
    }
}

/// Insert one parameter into a key-sorted vector, replacing an equal
/// key.
fn insert_param(out: &mut Vec<(String, String)>, key: String, value: String)
    ensures
        pairs_view(final(out)@) == spec_insert_pair((key@, value@), pairs_view(old(out)@)),
{
    let ghost p = (key@, value@);
    let ghost s = pairs_view(old(out)@);
    let n = out.len();
    let mut j: usize = 0;
    loop
        invariant
            p == (key@, value@),
            n == out@.len(),
            s == pairs_view(out@),
            j <= n,
            forall|k: int| 0 <= k < j ==> lex_lt((#[trigger] s[k]).0, p.0),
            forall|k: int| 0 <= k < out@.len() ==> out@[k] == old(out)@[k],
            out@.len() == old(out)@.len(),
        ensures
            j <= n,
            j < n ==> !lex_lt(s[j as int].0, p.0),
            forall|k: int| 0 <= k < j ==> lex_lt((#[trigger] s[k]).0, p.0),
            out@ == old(out)@,
        decreases n - j,
    {
        if j >= n {
            proof {
                assert(out@ =~= old(out)@);
            }
            break;
        }
        proof {
            assert(s[j as int] == (out@[j as int].0@, out@[j as int].1@));
        }
        let below = str_lex_lt(out[j].0.as_str(), key.as_str());
        if !below {
            proof {
                assert(out@ =~= old(out)@);
            }
            break;
        }
        proof {
            assert(lex_lt(s[j as int].0, p.0));
        }
        j += 1;
    }
    proof {
        lemma_insert_shift(p, s, j as int);
    }
    if j < n {
        proof {
            assert(s[j as int] == (out@[j as int].0@, out@[j as int].1@));
        }
        let same = crate::strutil::str_eq(out[j].0.as_str(), key.as_str());
        proof {
            assert(s.skip(j as int)[0] == s[j as int]);
            lemma_lex_trichotomy(p.0, s[j as int].0);
        }
        if same {
            let ghost before = out@;
            out.remove(j);
            out.insert(j, (key, value));
            proof {
                assert(pairs_view(out@) =~= s.take(j as int) + (seq![p] + s.skip(j as int)
                    .drop_first()));
                assert(s.skip(j as int).drop_first() =~= s.skip(j + 1));
                assert(spec_insert_pair(p, s.skip(j as int)) == seq![p] + s.skip(j as int)
                    .drop_first());
                assert(pairs_view(out@) =~= spec_insert_pair(p, s));
            }
        } else {
            proof {
                assert(lex_lt(p.0, s.skip(j as int)[0].0));
            }
            out.insert(j, (key, value));
            proof {
                assert(spec_insert_pair(p, s.skip(j as int)) == seq![p] + s.skip(j as int));
                assert(pairs_view(out@) =~= s.take(j as int) + (seq![p] + s.skip(j as int)));
            }
        }
    } else {
        out.push((key, value));
        proof {
            assert(s.skip(n as int) =~= Seq::<(Seq<char>, Seq<char>)>::empty());
            assert(spec_insert_pair(p, s.skip(n as int)) == seq![p]);
            assert(pairs_view(out@) =~= s.take(n as int) + seq![p]);
            assert(s.take(n as int) =~= s);
        }
    }
}

/// Sort parameters into canonical key order, later bindings
/// replacing earlier ones.
pub fn sort_params(params: &Vec<(String, String)>) -> (r: Vec<(String, String)>)
    ensures
        pairs_view(r@) == spec_sort_pairs(pairs_view(params@)),
{
    let mut out: Vec<(String, String)> = Vec::new();
    let n = params.len();
    let mut i: usize = 0;
    proof {
        assert(pairs_view(Seq::<(String, String)>::empty()) =~= Seq::<(
            Seq<char>,
            Seq<char>,
        )>::empty());
        assert(pairs_view(params@.take(0)) =~= Seq::<(Seq<char>, Seq<char>)>::empty());
    }
    while i < n
        invariant
            n == params@.len(),
            i <= n,
            pairs_view(out@) == spec_sort_pairs(pairs_view(params@.take(i as int))),
        decreases n - i,
    {
        let key = params[i].0.clone();
        let value = params[i].1.clone();
        insert_param(&mut out, key, value);
        proof {
            assert(pairs_view(params@.take(i + 1)).drop_last() =~= pairs_view(
                params@.take(i as int),
            ));
            assert(pairs_view(params@.take(i + 1)).last() == (params@[i as int].0@, params@[
                i as int].1@));
        }
        i += 1;
    }
    proof {
        assert(params@.take(n as int) =~= params@);
    }
    out
}

/// The canonical payload text: `k=v` pairs joined by `&`.
pub open spec fn spec_payload(s: Seq<(Seq<char>, Seq<char>)>) -> Seq<char>
    decreases s.len(),
{
    if s.len() == 0 {
        Seq::empty()
    } else if s.len() == 1 {
        s[0].0 + "="@ + s[0].1
    } else {
        spec_payload(s.drop_last()) + "&"@ + s.last().0 + "="@ + s.last().1
    }
}

/// Join parameters into the payload text `k=v&k=v&…` in their given
/// order.
pub fn build_payload(pairs: &Vec<(String, String)>) -> (r: String)
    ensures
        r@ == spec_payload(pairs_view(pairs@)),
{
    let mut out = String::new();
    let n = pairs.len();
    let mut i: usize = 0;
    proof {
        assert(pairs_view(pairs@.take(0)) =~= Seq::<(Seq<char>, Seq<char>)>::empty());
    }
    while i < n
        invariant
            n == pairs@.len(),
            i <= n,
            out@ == spec_payload(pairs_view(pairs@.take(i as int))),
        decreases n - i,
    {
        if i > 0 {
            out.append("&");
        }
        out.append(pairs[i].0.as_str());
        out.append("=");
        out.append(pairs[i].1.as_str());
        proof {
            let ghost cur = pairs_view(pairs@.take(i + 1));
            assert(cur.drop_last() =~= pairs_view(pairs@.take(i as int)));
            assert(cur.last() == (pairs@[i as int].0@, pairs@[i as int].1@));
            if i == 0 {
                assert(cur.len() == 1);
                assert(cur[0] == cur.last());
                assert(out@ =~= cur[0].0 + "="@ + cur[0].1);
            } else {
                assert(out@ =~= spec_payload(cur.drop_last()) + "&"@ + cur.last().0 + "="@
                    + cur.last().1);
            }
        }
        i += 1;
    }
    proof {
        assert(pairs@.take(n as int) =~= pairs@);
    }
    out
}

/// The parameters that are signed: every pair except any under the
/// `signature` key itself, which the signature never covers.
pub open spec fn spec_drop_signature_key(
    s: Seq<(Seq<char>, Seq<char>)>,
) -> Seq<(Seq<char>, Seq<char>)>
    decreases s.len(),
{
    if s.len() == 0 {
        Seq::empty()
    } else {
        spec_drop_signature_key(s.drop_last()) + if s.last().0 == "signature"@ {
            Seq::empty()
        } else {
            seq![s.last()]
        }
    }
}

/// Dropping the `signature` key takes it out of the denoted map and
/// keeps everything else.
pub proof fn lemma_drop_signature_key_map(s: Seq<(Seq<char>, Seq<char>)>)
    ensures
        assoc_map_of(spec_drop_signature_key(s)) == assoc_map_of(s).remove("signature"@),
    decreases s.len(),
{
    if s.len() == 0 {
        assert(assoc_map_of(spec_drop_signature_key(s)) =~= assoc_map_of(s).remove(
            "signature"@,
        ));
    } else {
        lemma_drop_signature_key_map(s.drop_last());
        let d = spec_drop_signature_key(s);
        if s.last().0 == "signature"@ {
            assert(d =~= spec_drop_signature_key(s.drop_last()));
            assert(assoc_map_of(s).remove("signature"@) =~= assoc_map_of(s.drop_last()).remove(
                "signature"@,
            ));
        } else {
            assert(d.drop_last() =~= spec_drop_signature_key(s.drop_last()));
            assert(d.last() == s.last());
            assert(assoc_map_of(d) == assoc_map_of(spec_drop_signature_key(s.drop_last())).insert(
                s.last().0,
                s.last().1,
            ));
            assert(assoc_map_of(d) =~= assoc_map_of(s).remove("signature"@));
        }
    }
}

/// The signature of a parameter map under a secret: hex HMAC-SHA256
/// over the canonical payload of the parameters, any `signature` key
/// excluded. Any two parameter sequences denoting the same map sign
/// identically.
pub open spec fn spec_user_data_signature(
    pairs: Seq<(Seq<char>, Seq<char>)>,
    secret_bytes: Seq<u8>,
) -> Seq<char> {
    crate::sign::spec_signature(
        vstd::utf8::encode_utf8(spec_payload(spec_sort_pairs(spec_drop_signature_key(pairs)))),
        secret_bytes,
    )
}

/// Signing ignores parameter order: sequences denoting the same map
/// yield the same signature under every secret.
pub proof fn lemma_signature_order_independent(
    p1: Seq<(Seq<char>, Seq<char>)>,
    p2: Seq<(Seq<char>, Seq<char>)>,
    secret_bytes: Seq<u8>,
)
    requires
        assoc_map_of(p1) == assoc_map_of(p2),
    ensures
        spec_user_data_signature(p1, secret_bytes) == spec_user_data_signature(p2, secret_bytes),
{
    lemma_drop_signature_key_map(p1);
    lemma_drop_signature_key_map(p2);
    lemma_sort_determined_by_map(spec_drop_signature_key(p1), spec_drop_signature_key(p2));
}

/// Keep the parameters the signature covers: every pair whose key is
/// not `signature`.
fn drop_signature_key(params: &Vec<(String, String)>) -> (r: Vec<(String, String)>)
    ensures
        pairs_view(r@) == spec_drop_signature_key(pairs_view(params@)),
{
    let mut out: Vec<(String, String)> = Vec::new();
    let n = params.len();
    let mut i: usize = 0;
    proof {
        assert(pairs_view(out@) =~= spec_drop_signature_key(pairs_view(params@.take(0))));
    }
    while i < n
        invariant
            n == params@.len(),
            i <= n,
            pairs_view(out@) == spec_drop_signature_key(pairs_view(params@.take(i as int))),
        decreases n - i,
    {
        let ghost before = pairs_view(out@);
        if !crate::strutil::str_eq(params[i].0.as_str(), "signature") {
            out.push((params[i].0.clone(), params[i].1.clone()));
            proof {
                assert(pairs_view(out@).drop_last() =~= before);
                assert(pairs_view(out@).last() == (params@[i as int].0@, params@[i as int].1@));
            }
        }
        proof {
            assert(pairs_view(params@.take(i + 1)).drop_last() =~= pairs_view(
                params@.take(i as int),
            ));
            assert(pairs_view(params@.take(i + 1)).last() == (params@[i as int].0@, params@[
                i as int].1@));
            assert(pairs_view(out@) =~= spec_drop_signature_key(
                pairs_view(params@.take(i + 1)),
            ));
        }
        i += 1;
    }
    proof {
        assert(params@.take(n as int) =~= params@);
    }
    out
}

/// Sign a parameter map: drop any `signature` key, sort the rest into
/// canonical order, join them as `k=v&…`, and sign the exact payload
/// bytes; 64 hex characters.
pub fn sign_params(params: &Vec<(String, String)>, secret: &str) -> (r: String)
    ensures
        r@ == spec_user_data_signature(
            pairs_view(params@),
            vstd::string::StringSliceAdditionalSpecFns::spec_bytes(secret),
        ),
        r@.len() == 64,
{
    let covered = drop_signature_key(params);
    let sorted = sort_params(&covered);
    let payload = build_payload(&sorted);
    crate::sign::generate_signature(payload.as_str(), secret)
}

} // verus!

//! Orders used to make digests independent of insertion order: the
//! code-point order of strings, stable insertion sort, and the facts that
//! make a sorted sequence unique.

use vstd::prelude::*;

verus! {

/// Lexicographic order of code points from position `i` on.
pub open spec fn chars_lt_from(a: Seq<char>, b: Seq<char>, i: int) -> bool
    decreases a.len() - i,
{
    if i >= a.len() {
        i < b.len()
    } else if i >= b.len() {
        false
    } else if a[i] != b[i] {
        (a[i] as u32) < (b[i] as u32)
    } else {
        chars_lt_from(a, b, i + 1)
    }
}

/// The order of `str`: lexicographic by code point (the order of the UTF-8 bytes).
pub open spec fn chars_lt(a: Seq<char>, b: Seq<char>) -> bool {
    chars_lt_from(a, b, 0)
}

pub fn str_lt(a: &str, b: &str) -> (r: bool)
    ensures
        r == chars_lt(a@, b@),
{
    let n = a.unicode_len();
    let m = b.unicode_len();
    let mut i: usize = 0;
    while i < n && i < m
        invariant
            n == a@.len(),
            m == b@.len(),
            i <= n,
            i <= m,
            chars_lt_from(a@, b@, 0) == chars_lt_from(a@, b@, i as int),
        decreases n - i,
    {
        let x = a.get_char(i);
        let y = b.get_char(i);
        if x != y {
            return (x as u32) < (y as u32);
        }
        i = i + 1;
    }
    i < m
}

/// First position of `s` from `i` on holding an element above `x`.
pub open spec fn first_above<A>(s: Seq<A>, x: A, lt: spec_fn(A, A) -> bool, i: int) -> int
    decreases s.len() - i,
{
    if i >= s.len() {
        s.len() as int
    } else if lt(x, s[i]) {
        i
    } else {
        first_above(s, x, lt, i + 1)
    }
}

/// Stable insertion sort: each element goes before the first element above
/// it, so equal elements keep their order.
pub open spec fn insertion_sorted<A>(s: Seq<A>, lt: spec_fn(A, A) -> bool) -> Seq<A>
    decreases s.len(),
{
    if s.len() == 0 {
        s
    } else {
        let r = insertion_sorted(s.drop_last(), lt);
        r.insert(first_above(r, s.last(), lt, 0), s.last())
    }
}

/// Concatenation of `f` over `s`.
pub open spec fn flat_bytes<A>(s: Seq<A>, f: spec_fn(A) -> Seq<u8>) -> Seq<u8>
    decreases s.len(),
{
    if s.len() == 0 {
        seq![]
    } else {
        flat_bytes(s.drop_last(), f) + f(s.last())
    }
}

pub proof fn lemma_flat_step<A>(s: Seq<A>, f: spec_fn(A) -> Seq<u8>, j: int)
    requires
        0 <= j < s.len(),
    ensures
        flat_bytes(s.take(j + 1), f) == flat_bytes(s.take(j), f) + f(s[j]),
{
    assert(s.take(j + 1).drop_last() =~= s.take(j));
}

/// The code-point order is irreflexive.
pub proof fn lemma_chars_lt_irreflexive(a: Seq<char>, i: int)
    requires
        0 <= i,
    ensures
        !chars_lt_from(a, a, i),
    decreases a.len() - i,
{
    if i < a.len() {
        lemma_chars_lt_irreflexive(a, i + 1);
    }
}

/// The code-point order is transitive.
pub proof fn lemma_chars_lt_transitive(a: Seq<char>, b: Seq<char>, c: Seq<char>, i: int)
    requires
        0 <= i,
        chars_lt_from(a, b, i),
        chars_lt_from(b, c, i),
    ensures
        chars_lt_from(a, c, i),
    decreases a.len() - i,
{
    if i < a.len() && i < b.len() && i < c.len() && a[i] == b[i] && b[i] == c[i] {
        lemma_chars_lt_transitive(a, b, c, i + 1);
    }
}

/// Two strings that agree up to `i` are ordered one way or the other from
/// `i` on, unless they are equal.
pub proof fn lemma_chars_lt_total(a: Seq<char>, b: Seq<char>, i: int)
    requires
        0 <= i <= a.len(),
        i <= b.len(),
        forall|k: int| 0 <= k < i ==> a[k] == b[k],
    ensures
        chars_lt_from(a, b, i) || chars_lt_from(b, a, i) || a == b,
    decreases a.len() - i,
{
    if i < a.len() && i < b.len() {
        if a[i] == b[i] {
            lemma_chars_lt_total(a, b, i + 1);
            assert forall|k: int| 0 <= k < i + 1 implies a[k] == b[k] by {}
        } else {
            vstd::utf8::char_u32_cast(a[i], a[i] as u32);
            vstd::utf8::char_u32_cast(b[i], b[i] as u32);
        }
    } else if i == a.len() && i == b.len() {
        assert(a =~= b);
    }
}

/// Number of occurrences of `k` in `s`.
pub open spec fn occurrences<K>(s: Seq<K>, k: K) -> nat
    decreases s.len(),
{
    if s.len() == 0 {
        0
    } else {
        (if s[0] == k { 1nat } else { 0nat }) + occurrences(s.drop_first(), k)
    }
}

proof fn lemma_occurrences_concat<K>(a: Seq<K>, b: Seq<K>, k: K)
    ensures
        occurrences(a + b, k) == occurrences(a, k) + occurrences(b, k),
    decreases a.len(),
{
    if a.len() > 0 {
        assert((a + b).drop_first() =~= a.drop_first() + b);
        lemma_occurrences_concat(a.drop_first(), b, k);
    } else {
        assert(a + b =~= b);
    }
}

proof fn lemma_occurrences_single<K>(x: K, k: K)
    ensures
        occurrences(seq![x], k) == (if x == k { 1nat } else { 0nat }),
{
    let e = seq![x].drop_first();
    assert(e =~= Seq::<K>::empty());
    assert(occurrences(e, k) == 0);
}

proof fn lemma_occurrences_insert<K>(s: Seq<K>, p: int, x: K, k: K)
    requires
        0 <= p <= s.len(),
    ensures
        occurrences(s.insert(p, x), k) == occurrences(s, k) + (if x == k { 1nat } else { 0nat }),
{
    assert(s.insert(p, x) =~= s.take(p) + seq![x] + s.skip(p));
    assert(s =~= s.take(p) + s.skip(p));
    lemma_occurrences_concat(s.take(p) + seq![x], s.skip(p), k);
    lemma_occurrences_concat(s.take(p), seq![x], k);
    lemma_occurrences_concat(s.take(p), s.skip(p), k);
    lemma_occurrences_single(x, k);
}

proof fn lemma_occurrences_last<K>(s: Seq<K>, k: K)
    requires
        s.len() > 0,
    ensures
        occurrences(s, k) == occurrences(s.drop_last(), k) + (if s.last() == k { 1nat } else { 0nat }),
{
    assert(s =~= s.drop_last() + seq![s.last()]);
    lemma_occurrences_concat(s.drop_last(), seq![s.last()], k);
    lemma_occurrences_single(s.last(), k);
}

proof fn lemma_occurs_at<K>(s: Seq<K>, k: K)
    requires
        occurrences(s, k) > 0,
    ensures
        exists|j: int| 0 <= j < s.len() && s[j] == k,
    decreases s.len(),
{
    if s[0] != k {
        lemma_occurs_at(s.drop_first(), k);
        let j = choose|j: int| 0 <= j < s.drop_first().len() && s.drop_first()[j] == k;
        assert(s[j + 1] == k);
    } else {
        assert(s[0] == k);
    }
}

/// No element is above an element that follows it.
pub open spec fn sorted_by<K>(s: Seq<K>, lt: spec_fn(K, K) -> bool) -> bool {
    forall|i: int, j: int| 0 <= i < j < s.len() ==> !lt(#[trigger] s[j], #[trigger] s[i])
}

/// `lt` is irreflexive and transitive.
pub open spec fn strict_order<K>(lt: spec_fn(K, K) -> bool) -> bool {
    &&& forall|a: K| !#[trigger] lt(a, a)
    &&& forall|a: K, b: K, c: K| #[trigger] lt(a, b) && #[trigger] lt(b, c) ==> lt(a, c)
}

proof fn lemma_first_above_props<A>(s: Seq<A>, x: A, lt: spec_fn(A, A) -> bool, i: int)
    requires
        0 <= i <= s.len(),
    ensures
        i <= first_above(s, x, lt, i) <= s.len(),
        forall|k: int| i <= k < first_above(s, x, lt, i) ==> !lt(x, #[trigger] s[k]),
        first_above(s, x, lt, i) < s.len() ==> lt(x, s[first_above(s, x, lt, i)]),
    decreases s.len() - i,
{
    if i < s.len() {
        lemma_first_above_props(s, x, lt, i + 1);
    }
}

/// Insertion sort under a strict order gives a sorted rearrangement.
pub proof fn lemma_insertion_sorted<K>(s: Seq<K>, lt: spec_fn(K, K) -> bool)
    requires
        strict_order(lt),
    ensures
        sorted_by(insertion_sorted(s, lt), lt),
        insertion_sorted(s, lt).len() == s.len(),
        forall|k: K| #[trigger] occurrences(insertion_sorted(s, lt), k) == occurrences(s, k),
    decreases s.len(),
{
    if s.len() > 0 {
        let r = insertion_sorted(s.drop_last(), lt);
        lemma_insertion_sorted(s.drop_last(), lt);
        let x = s.last();
        let p = first_above(r, x, lt, 0);
        lemma_first_above_props(r, x, lt, 0);
        let t = r.insert(p, x);
        assert(t == insertion_sorted(s, lt));
        assert forall|i: int, j: int| 0 <= i < j < t.len() implies !lt(#[trigger] t[j], #[trigger] t[i]) by {
            if j < p {
                assert(t[i] == r[i] && t[j] == r[j]);
            } else if j == p {
                assert(t[i] == r[i] && t[j] == x);
            } else if i < p {
                assert(t[i] == r[i] && t[j] == r[j - 1]);
            } else if i == p {
                assert(t[j] == r[j - 1] && t[i] == x);
                if lt(r[j - 1], x) {
                    assert(lt(x, r[p]));
                    assert(lt(r[j - 1], r[p]));
                    if j - 1 == p {
                        assert(!lt(r[p], r[p]));
                    } else {
                        assert(!lt(r[j - 1], r[p]));
                    }
                }
            } else {
                assert(t[i] == r[i - 1] && t[j] == r[j - 1]);
            }
        }
        assert forall|k: K| #[trigger] occurrences(t, k) == occurrences(s, k) by {
            lemma_occurrences_insert(r, p, x, k);
            lemma_occurrences_last(s, k);
        }
    }
}

/// Two sequences sorted under a strict order that is total on their
/// elements, and holding the same elements equally often, are equal.
pub proof fn lemma_sorted_unique<K>(s1: Seq<K>, s2: Seq<K>, lt: spec_fn(K, K) -> bool)
    requires
        strict_order(lt),
        sorted_by(s1, lt),
        sorted_by(s2, lt),
        forall|k: K| #[trigger] occurrences(s1, k) == occurrences(s2, k),
        forall|a: K, b: K| occurrences(s1, a) > 0 && occurrences(s1, b) > 0 && a != b
            ==> #[trigger] lt(a, b) || #[trigger] lt(b, a),
    ensures
        s1 == s2,
    decreases s1.len(),
{
    if s1.len() == 0 {
        if s2.len() > 0 {
            assert(occurrences(s2, s2[0]) > 0);
            assert(occurrences(s1, s2[0]) == 0);
        }
        assert(s1 =~= s2);
    } else if s2.len() == 0 {
        assert(occurrences(s1, s1[0]) > 0);
        assert(occurrences(s2, s1[0]) == 0);
    } else {
        let m1 = s1[0];
        let m2 = s2[0];
        assert(occurrences(s1, m1) > 0);
        assert(occurrences(s2, m2) > 0);
        if m1 != m2 {
            assert(occurrences(s1, m2) > 0);
            if lt(m1, m2) {
                assert(occurrences(s2, m1) > 0);
                lemma_occurs_at(s2, m1);
                let j = choose|j: int| 0 <= j < s2.len() && s2[j] == m1;
                assert(j != 0);
                assert(!lt(s2[j], s2[0]));
            } else {
                assert(lt(m2, m1));
                lemma_occurs_at(s1, m2);
                let j = choose|j: int| 0 <= j < s1.len() && s1[j] == m2;
                assert(j != 0);
                assert(!lt(s1[j], s1[0]));
            }
        }
        let t1 = s1.drop_first();
        let t2 = s2.drop_first();
        assert forall|k: K| #[trigger] occurrences(t1, k) == occurrences(t2, k) by {
            assert(occurrences(s1, k) == (if m1 == k { 1nat } else { 0nat }) + occurrences(t1, k));
            assert(occurrences(s2, k) == (if m2 == k { 1nat } else { 0nat }) + occurrences(t2, k));
        }
        assert forall|i: int, j: int| 0 <= i < j < t1.len() implies !lt(#[trigger] t1[j], #[trigger] t1[i]) by {
            assert(t1[i] == s1[i + 1] && t1[j] == s1[j + 1]);
        }
        assert forall|i: int, j: int| 0 <= i < j < t2.len() implies !lt(#[trigger] t2[j], #[trigger] t2[i]) by {
            assert(t2[i] == s2[i + 1] && t2[j] == s2[j + 1]);
        }
        assert forall|a: K, b: K| occurrences(t1, a) > 0 && occurrences(t1, b) > 0 && a != b
            implies #[trigger] lt(a, b) || #[trigger] lt(b, a) by {
            assert(occurrences(s1, a) == (if m1 == a { 1nat } else { 0nat }) + occurrences(t1, a));
            assert(occurrences(s1, b) == (if m1 == b { 1nat } else { 0nat }) + occurrences(t1, b));
        }
        lemma_sorted_unique(t1, t2, lt);
        assert forall|i: int| 0 <= i < s1.len() implies s1[i] == s2[i] by {
            if i > 0 {
                assert(s1[i] == t1[i - 1] && s2[i] == t2[i - 1]);
            }
        }
        assert(s1.len() == t1.len() + 1 && s2.len() == t2.len() + 1);
        assert(s1 =~= s2);
    }
}

proof fn lemma_first_above_map<A, K>(
    s: Seq<A>,
    x: A,
    lt: spec_fn(A, A) -> bool,
    key: spec_fn(A) -> K,
    ltk: spec_fn(K, K) -> bool,
    i: int,
)
    requires
        0 <= i,
        forall|a: A, b: A| #[trigger] lt(a, b) == ltk(key(a), key(b)),
    ensures
        first_above(s, x, lt, i) == first_above(s.map_values(key), key(x), ltk, i),
    decreases s.len() - i,
{
    if i < s.len() {
        assert(s.map_values(key)[i] == key(s[i]));
        assert(lt(x, s[i]) == ltk(key(x), key(s[i])));
        lemma_first_above_map(s, x, lt, key, ltk, i + 1);
    }
}

/// Sorting commutes with taking keys, when the order only looks at keys.
pub proof fn lemma_insertion_sorted_map<A, K>(
    s: Seq<A>,
    lt: spec_fn(A, A) -> bool,
    key: spec_fn(A) -> K,
    ltk: spec_fn(K, K) -> bool,
)
    requires
        forall|a: A, b: A| #[trigger] lt(a, b) == ltk(key(a), key(b)),
    ensures
        insertion_sorted(s, lt).map_values(key) == insertion_sorted(s.map_values(key), ltk),
    decreases s.len(),
{
    if s.len() > 0 {
        let r = insertion_sorted(s.drop_last(), lt);
        lemma_insertion_sorted_map(s.drop_last(), lt, key, ltk);
        lemma_first_above_map(r, s.last(), lt, key, ltk, 0);
        lemma_first_above_props(r, s.last(), lt, 0);
        let p = first_above(r, s.last(), lt, 0);
        assert(s.map_values(key).drop_last() =~= s.drop_last().map_values(key));
        assert(s.map_values(key).last() == key(s.last()));
        assert(r.insert(p, s.last()).map_values(key) =~= r.map_values(key).insert(p, key(s.last())));
    } else {
        assert(s.map_values(key) =~= Seq::<K>::empty());
        assert(insertion_sorted(s, lt).map_values(key) =~= Seq::<K>::empty());
    }
}

/// Byte streams of sequences with the same keys are equal when each
/// element's bytes depend on its key alone.
pub proof fn lemma_flat_bytes_by_key<A, K>(s: Seq<A>, t: Seq<A>, f: spec_fn(A) -> Seq<u8>, key: spec_fn(A) -> K)
    requires
        s.map_values(key) == t.map_values(key),
        forall|a: A, b: A| #[trigger] key(a) == #[trigger] key(b) ==> f(a) == f(b),
    ensures
        flat_bytes(s, f) == flat_bytes(t, f),
    decreases s.len(),
{
    assert(s.len() == s.map_values(key).len() && t.len() == t.map_values(key).len());
    if s.len() > 0 {
        assert(s.drop_last().map_values(key) =~= t.drop_last().map_values(key)) by {
            assert forall|i: int| 0 <= i < s.len() - 1 implies s.drop_last().map_values(key)[i]
                == t.drop_last().map_values(key)[i] by {
                assert(s.map_values(key)[i] == t.map_values(key)[i]);
                assert(s.map_values(key)[i] == key(s[i]));
                assert(t.map_values(key)[i] == key(t[i]));
                assert(s.drop_last().map_values(key)[i] == key(s.drop_last()[i]));
                assert(t.drop_last().map_values(key)[i] == key(t.drop_last()[i]));
            }
        }
        lemma_flat_bytes_by_key(s.drop_last(), t.drop_last(), f, key);
        assert(s.map_values(key)[s.len() - 1] == t.map_values(key)[s.len() - 1]);
        assert(s.map_values(key)[s.len() - 1] == key(s[s.len() - 1]));
        assert(t.map_values(key)[s.len() - 1] == key(t[s.len() - 1]));
        assert(key(s.last()) == key(t.last()));
    }
}

/// An element that occurs is at some position.
pub proof fn lemma_occurs_in<K>(s: Seq<K>, k: K)
    requires
        occurrences(s, k) > 0,
    ensures
        exists|j: int| 0 <= j < s.len() && s[j] == k,
{
    lemma_occurs_at(s, k);
}

/// Sequences holding the same elements equally often have the same length.
pub proof fn lemma_same_occurrences_same_len<K>(s1: Seq<K>, s2: Seq<K>)
    requires
        forall|k: K| #[trigger] occurrences(s1, k) == occurrences(s2, k),
    ensures
        s1.len() == s2.len(),
    decreases s1.len(),
{
    if s1.len() == 0 {
        if s2.len() > 0 {
            assert(occurrences(s2, s2[0]) > 0);
            assert(occurrences(s1, s2[0]) == 0);
        }
    } else {
        let x = s1[0];
        assert(occurrences(s1, x) > 0);
        lemma_occurs_at(s2, x);
        let j = choose|j: int| 0 <= j < s2.len() && s2[j] == x;
        let t2 = s2.remove(j);
        assert(s2 =~= t2.insert(j, x));
        assert forall|k: K| #[trigger] occurrences(s1.drop_first(), k) == occurrences(t2, k) by {
            lemma_occurrences_insert(t2, j, x, k);
            assert(occurrences(s1, k) == (if x == k { 1nat } else { 0nat }) + occurrences(s1.drop_first(), k));
            assert(occurrences(s2, k) == occurrences(t2.insert(j, x), k));
        }
        lemma_same_occurrences_same_len(s1.drop_first(), t2);
        assert(t2.len() == s2.len() - 1);
    }
}

} // verus!

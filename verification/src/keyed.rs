//! Small string-keyed tables held as vectors of (key, value) pairs.
//!
//! Lookups take the first entry whose key matches, so a table in which every
//! key occurs once behaves as a map, with entries kept in insertion order.

use vstd::prelude::*;
use crate::text::str_eq;

verus! {

/// Index of the first entry at or after `i` whose key is `key`.
pub open spec fn first_from<V>(s: Seq<(String, V)>, key: Seq<char>, i: int) -> Option<int>
    decreases s.len() - i,
{
    if i < 0 || i >= s.len() {
        None
    } else if s[i].0@ == key {
        Some(i)
    } else {
        first_from(s, key, i + 1)
    }
}

/// Index of the entry for `key`, if any.
pub open spec fn key_index<V>(s: Seq<(String, V)>, key: Seq<char>) -> Option<int> {
    first_from(s, key, 0)
}

/// The value stored under `key`, if any.
pub open spec fn lookup<V>(s: Seq<(String, V)>, key: Seq<char>) -> Option<V> {
    match key_index(s, key) {
        Some(i) => Some(s[i].1),
        None => None,
    }
}

pub proof fn lemma_first_from_bounds<V>(s: Seq<(String, V)>, key: Seq<char>, i: int)
    ensures
        first_from(s, key, i) matches Some(j) ==> (i <= j < s.len() && s[j].0@ == key
            && forall|k: int| i <= k < j ==> s[k].0@ != key),
        first_from(s, key, i) is None ==> forall|k: int| 0 <= i <= k < s.len() ==> s[k].0@ != key,
    decreases s.len() - i,
{
    if i >= 0 && i < s.len() && s[i].0@ != key {
        lemma_first_from_bounds(s, key, i + 1);
    }
}

/// Tables with the same keys in the same places find every key in the same place.
pub proof fn lemma_same_keys<V>(s1: Seq<(String, V)>, s2: Seq<(String, V)>, key: Seq<char>, i: int)
    requires
        s1.len() == s2.len(),
        forall|j: int| 0 <= j < s1.len() ==> #[trigger] s1[j].0@ == s2[j].0@,
    ensures
        first_from(s1, key, i) == first_from(s2, key, i),
    decreases s1.len() - i,
{
    if i >= 0 && i < s1.len() {
        lemma_same_keys(s1, s2, key, i + 1);
    }
}

/// Appending an entry does not move any key already present.
pub proof fn lemma_push<V>(s: Seq<(String, V)>, x: (String, V), key: Seq<char>, i: int)
    requires
        0 <= i <= s.len(),
    ensures
        first_from(s.push(x), key, i) == (match first_from(s, key, i) {
            Some(j) => Some(j),
            None => if x.0@ == key { Some(s.len() as int) } else { None },
        }),
    decreases s.len() - i,
{
    let t = s.push(x);
    if i < s.len() {
        assert(t[i] == s[i]);
        lemma_push(s, x, key, i + 1);
    } else {
        assert(t[i] == x);
        assert(first_from(t, key, i + 1) is None);
    }
}

/// Position of the entry for `key`.
pub fn find_key<V>(entries: &Vec<(String, V)>, key: &str) -> (r: Option<usize>)
    ensures
        match r {
            Some(i) => i < entries@.len() && entries@[i as int].0@ == key@
                && key_index(entries@, key@) == Some(i as int),
            None => key_index(entries@, key@) is None,
        },
{
    let mut i: usize = 0;
    while i < entries.len()
        invariant
            i <= entries@.len(),
            key_index(entries@, key@) == first_from(entries@, key@, i as int),
        decreases entries@.len() - i,
    {
        if str_eq(entries[i].0.as_str(), key) {
            return Some(i);
        }
        assert(entries@[i as int].0@ != key@);
        i = i + 1;
    }
    None
}

/// Replaces the value at position `i`, keeping its key; returns the old value.
pub fn replace_at<V>(entries: &mut Vec<(String, V)>, i: usize, v: V) -> (prev: V)
    requires
        i < old(entries)@.len(),
    ensures
        final(entries)@ == old(entries)@.update(i as int, (old(entries)@[i as int].0, v)),
        prev == old(entries)@[i as int].1,
{
    let (k, prev) = entries.remove(i);
    entries.insert(i, (k, v));
    assert(entries@ =~= old(entries)@.update(i as int, (old(entries)@[i as int].0, v)));
    prev
}

/// Replacing a value in place moves no key and changes only that key's value.
pub proof fn lemma_update_value<V>(s: Seq<(String, V)>, i: int, v: V)
    requires
        0 <= i < s.len(),
    ensures
        forall|k: Seq<char>| #[trigger] key_index(s.update(i, (s[i].0, v)), k) == key_index(s, k),
        lookup(s.update(i, (s[i].0, v)), s[i].0@) == (match key_index(s, s[i].0@) {
            Some(j) => if j == i { Some(v) } else { Some(s[j].1) },
            None => None::<V>,
        }),
        forall|k: Seq<char>| k != s[i].0@ ==> #[trigger] lookup(s.update(i, (s[i].0, v)), k) == lookup(s, k),
{
    let t = s.update(i, (s[i].0, v));
    assert forall|j: int| 0 <= j < s.len() implies #[trigger] s[j].0@ == t[j].0@ by {}
    assert forall|k: Seq<char>| true implies #[trigger] key_index(t, k) == key_index(s, k) by {
        lemma_same_keys(s, t, k, 0);
    }
    assert forall|k: Seq<char>| k != s[i].0@ implies #[trigger] lookup(t, k) == lookup(s, k) by {
        lemma_same_keys(s, t, k, 0);
        lemma_first_from_bounds(s, k, 0);
    }
    lemma_same_keys(s, t, s[i].0@, 0);
    lemma_first_from_bounds(s, s[i].0@, 0);
}

/// Stores `v` under `key`, replacing the value of an existing entry in
/// place or appending a new entry.
pub fn set_entry<V>(entries: &mut Vec<(String, V)>, key: &str, v: V)
    ensures
        lookup(final(entries)@, key@) == Some(v),
        forall|k: Seq<char>| k != key@ ==> #[trigger] lookup(final(entries)@, k) == lookup(old(entries)@, k),
{
    let ghost before = entries@;
    match find_key(entries, key) {
        Some(i) => {
            let ghost gv = v;
            let _ = replace_at(entries, i, v);
            proof {
                lemma_update_value(before, i as int, gv);
            }
        },
        None => {
            let entry = (key.to_owned(), v);
            let ghost g = entry;
            entries.push(entry);
            proof {
                assert forall|k: Seq<char>| k != key@ implies #[trigger] lookup(entries@, k) == lookup(before, k) by {
                    lemma_push(before, g, k, 0);
                    lemma_first_from_bounds(before, k, 0);
                    if let Some(j) = key_index(before, k) {
                        assert(entries@[j] == before[j]);
                    }
                }
                lemma_push(before, g, key@, 0);
            }
        },
    }
}

} // verus!

//! Keyed lists: sequences of `(key, value)` pairs looked up by the first
//! entry with a given key. The collectors and registries keep their
//! per-key state in such lists; lookups, updates and insertions are stated
//! here once, with the lemmas that relate them.

use vstd::prelude::*;

verus! {

/// Index of the first entry whose key is `key`, or -1 when there is none.
pub open spec fn first_index<V>(entries: Seq<(Seq<char>, V)>, key: Seq<char>) -> int
    decreases entries.len(),
{
    if entries.len() == 0 {
        -1
    } else if entries[0].0 == key {
        0
    } else {
        let r = first_index(entries.drop_first(), key);
        if r < 0 {
            -1
        } else {
            r + 1
        }
    }
}

/// The value of the first entry with key `key`.
pub open spec fn find<V>(entries: Seq<(Seq<char>, V)>, key: Seq<char>) -> Option<V> {
    let i = first_index(entries, key);
    if i >= 0 {
        Some(entries[i].1)
    } else {
        None
    }
}

/// The entries with the first entry for `key` given the value `val`, or
/// `(key, val)` appended when there is no entry for `key`.
pub open spec fn assign<V>(entries: Seq<(Seq<char>, V)>, key: Seq<char>, val: V) -> Seq<
    (Seq<char>, V),
> {
    let i = first_index(entries, key);
    if i >= 0 {
        entries.update(i, (key, val))
    } else {
        entries.push((key, val))
    }
}

/// The entries without the first entry for `key`.
pub open spec fn unassign<V>(entries: Seq<(Seq<char>, V)>, key: Seq<char>) -> Seq<
    (Seq<char>, V),
> {
    let i = first_index(entries, key);
    if i >= 0 {
        entries.remove(i)
    } else {
        entries
    }
}

/// What `first_index` returns: a position holding `key` with no earlier
/// entry for `key`, or -1 when no entry holds `key`.
pub proof fn lemma_first_index<V>(entries: Seq<(Seq<char>, V)>, key: Seq<char>)
    ensures
        -1 <= first_index(entries, key) < entries.len(),
        first_index(entries, key) >= 0 ==> entries[first_index(entries, key)].0 == key,
        forall|j: int|
            0 <= j < entries.len() && (first_index(entries, key) < 0 || j < first_index(
                entries,
                key,
            )) ==> #[trigger] entries[j].0 != key,
    decreases entries.len(),
{
    if entries.len() > 0 && entries[0].0 != key {
        lemma_first_index(entries.drop_first(), key);
        assert forall|j: int|
            0 <= j < entries.len() && (first_index(entries, key) < 0 || j < first_index(
                entries,
                key,
            )) implies #[trigger] entries[j].0 != key by {
            if j > 0 {
                assert(entries[j] == entries.drop_first()[j - 1]);
            }
        }
    }
}

/// A position holding `key` with no earlier entry for it is the first index.
pub proof fn lemma_first_index_at<V>(entries: Seq<(Seq<char>, V)>, key: Seq<char>, i: int)
    requires
        0 <= i < entries.len(),
        entries[i].0 == key,
        forall|j: int| 0 <= j < i ==> #[trigger] entries[j].0 != key,
    ensures
        first_index(entries, key) == i,
{
    lemma_first_index(entries, key);
    let f = first_index(entries, key);
    if f < 0 {
        assert(entries[i].0 != key);
    } else if f < i {
        assert(entries[f].0 != key);
    } else if f > i {
        assert(entries[i].0 != key);
    }
}

/// No entry holds `key`, so there is no first index.
pub proof fn lemma_first_index_absent<V>(entries: Seq<(Seq<char>, V)>, key: Seq<char>)
    requires
        forall|j: int| 0 <= j < entries.len() ==> #[trigger] entries[j].0 != key,
    ensures
        first_index(entries, key) == -1,
{
    lemma_first_index(entries, key);
    let f = first_index(entries, key);
    if f >= 0 {
        assert(entries[f].0 != key);
    }
}

/// After `assign`, the key reads back the assigned value and every other key
/// reads what it read before.
pub proof fn lemma_assign<V>(entries: Seq<(Seq<char>, V)>, key: Seq<char>, val: V, other: Seq<char>)
    ensures
        find(assign(entries, key, val), key) == Some(val),
        other != key ==> find(assign(entries, key, val), other) == find(entries, other),
{
    lemma_first_index(entries, key);
    lemma_first_index(entries, other);
    let e2 = assign(entries, key, val);
    let i = first_index(entries, key);
    if i >= 0 {
        lemma_first_index_at(e2, key, i);
        if other != key {
            let o = first_index(entries, other);
            if o >= 0 {
                assert forall|j: int| 0 <= j < o implies #[trigger] e2[j].0 != other by {
                    if j != i {
                        assert(e2[j] == entries[j]);
                    }
                }
                lemma_first_index_at(e2, other, o);
            } else {
                assert forall|j: int| 0 <= j < e2.len() implies #[trigger] e2[j].0 != other by {
                    if j != i {
                        assert(e2[j] == entries[j]);
                    }
                }
                lemma_first_index_absent(e2, other);
            }
        }
    } else {
        assert forall|j: int| 0 <= j < entries.len() implies #[trigger] e2[j].0 != key by {
            assert(e2[j] == entries[j]);
        }
        lemma_first_index_at(e2, key, entries.len() as int);
        if other != key {
            let o = first_index(entries, other);
            if o >= 0 {
                assert forall|j: int| 0 <= j < o implies #[trigger] e2[j].0 != other by {
                    assert(e2[j] == entries[j]);
                }
                lemma_first_index_at(e2, other, o);
            } else {
                assert forall|j: int| 0 <= j < e2.len() implies #[trigger] e2[j].0 != other by {
                    if j < entries.len() {
                        assert(e2[j] == entries[j]);
                    }
                }
                lemma_first_index_absent(e2, other);
            }
        }
    }
}

/// After `unassign`, the key reads nothing when it held a single entry, and
/// every other key reads what it read before.
pub proof fn lemma_unassign<V>(entries: Seq<(Seq<char>, V)>, key: Seq<char>, other: Seq<char>)
    ensures
        other != key ==> find(unassign(entries, key), other) == find(entries, other),
        (forall|a: int, b: int|
            0 <= a < b < entries.len() ==> #[trigger] entries[a].0 != #[trigger] entries[b].0)
            ==> find(unassign(entries, key), key) is None,
{
    lemma_first_index(entries, key);
    lemma_first_index(entries, other);
    let e2 = unassign(entries, key);
    let i = first_index(entries, key);
    if i >= 0 {
        if other != key {
            let o = first_index(entries, other);
            if o >= 0 {
                if o < i {
                    assert forall|j: int| 0 <= j < o implies #[trigger] e2[j].0 != other by {
                        assert(e2[j] == entries[j]);
                    }
                    assert(e2[o] == entries[o]);
                    lemma_first_index_at(e2, other, o);
                } else {
                    assert forall|j: int| 0 <= j < o - 1 implies #[trigger] e2[j].0 != other by {
                        if j < i {
                            assert(e2[j] == entries[j]);
                        } else {
                            assert(e2[j] == entries[j + 1]);
                        }
                    }
                    assert(e2[o - 1] == entries[o]);
                    lemma_first_index_at(e2, other, o - 1);
                }
            } else {
                assert forall|j: int| 0 <= j < e2.len() implies #[trigger] e2[j].0 != other by {
                    if j < i {
                        assert(e2[j] == entries[j]);
                    } else {
                        assert(e2[j] == entries[j + 1]);
                    }
                }
                lemma_first_index_absent(e2, other);
            }
        }
        if forall|a: int, b: int|
            0 <= a < b < entries.len() ==> #[trigger] entries[a].0 != #[trigger] entries[b].0 {
            assert forall|j: int| 0 <= j < e2.len() implies #[trigger] e2[j].0 != key by {
                if j < i {
                    assert(e2[j] == entries[j]);
                } else {
                    assert(e2[j] == entries[j + 1]);
                    assert(entries[i].0 != entries[j + 1].0);
                }
            }
            lemma_first_index_absent(e2, key);
        }
    }
}

/// Position of the first entry with the given key.
pub fn position<V>(entries: &Vec<(String, V)>, key: &str) -> (r: Option<usize>)
    ensures
        match r {
            Some(i) => i < entries@.len() && entries@[i as int].0@ == key@ && first_index(
                keys_of(entries@),
                key@,
            ) == i as int,
            None => first_index(keys_of(entries@), key@) == -1,
        },
{
    let ghost ks = keys_of(entries@);
    let mut i: usize = 0;
    while i < entries.len()
        invariant
            i <= entries@.len(),
            ks == keys_of(entries@),
            forall|j: int| 0 <= j < i ==> #[trigger] ks[j].0 != key@,
        decreases entries@.len() - i,
    {
        if crate::text::str_eq(entries[i].0.as_str(), key) {
            proof {
                lemma_first_index_at(ks, key@, i as int);
            }
            return Some(i);
        }
        i = i + 1;
    }
    proof {
        lemma_first_index_absent(ks, key@);
    }
    None
}

/// Entries with their keys taken by view.
pub open spec fn keys_of<V>(entries: Seq<(String, V)>) -> Seq<(Seq<char>, V)> {
    entries.map_values(|e: (String, V)| (e.0@, e.1))
}

/// `first_index` reads only the keys.
pub proof fn lemma_first_index_keys<V, W>(a: Seq<(Seq<char>, V)>, b: Seq<(Seq<char>, W)>, key: Seq<char>)
    requires
        a.len() == b.len(),
        forall|j: int| 0 <= j < a.len() ==> #[trigger] a[j].0 == b[j].0,
    ensures
        first_index(a, key) == first_index(b, key),
    decreases a.len(),
{
    if a.len() > 0 {
        lemma_first_index_keys(a.drop_first(), b.drop_first(), key);
        assert(a[0].0 == b[0].0);
    }
}

/// Gives the first entry for `key` the value `val`, or appends the pair.
pub fn assign_entry<V>(entries: &mut Vec<(String, V)>, key: String, val: V)
    ensures
        keys_of(final(entries)@) == assign(keys_of(old(entries)@), key@, val),
{
    let ghost k = key@;
    match position(entries, key.as_str()) {
        Some(i) => {
            entries.set(i, (key, val));
            assert(keys_of(entries@) =~= keys_of(old(entries)@).update(i as int, (k, val)));
        },
        None => {
            entries.push((key, val));
            assert(keys_of(entries@) =~= keys_of(old(entries)@).push((k, val)));
        },
    }
}

/// The value of the first entry for `key`.
pub fn lookup_entry<'a, V>(entries: &'a Vec<(String, V)>, key: &str) -> (r: Option<&'a V>)
    ensures
        match r {
            Some(v) => find(keys_of(entries@), key@) == Some(*v),
            None => find(keys_of(entries@), key@) is None,
        },
{
    match position(entries, key) {
        Some(i) => Some(&entries[i].1),
        None => None,
    }
}

/// Drops the first entry for `key`, if any.
pub fn unassign_entry<V>(entries: &mut Vec<(String, V)>, key: &str)
    ensures
        keys_of(final(entries)@) == unassign(keys_of(old(entries)@), key@),
{
    match position(entries, key) {
        Some(i) => {
            entries.remove(i);
            assert(keys_of(entries@) =~= keys_of(old(entries)@).remove(i as int));
        },
        None => {
        },
    }
}

} // verus!

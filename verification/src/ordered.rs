//! Entries in the order of their insertion, each a key with its value.

use vstd::prelude::*;

verus! {

/// The first value recorded under `key` at or after position `i`.
pub open spec fn lookup_from<V>(entries: Seq<(Seq<char>, V)>, key: Seq<char>, i: int) -> Option<V>
    decreases entries.len() - i,
{
    if i < 0 || i >= entries.len() {
        None
    } else if entries[i].0 == key {
        Some(entries[i].1)
    } else {
        lookup_from(entries, key, i + 1)
    }
}

/// The first value recorded under `key`.
pub open spec fn lookup<V>(entries: Seq<(Seq<char>, V)>, key: Seq<char>) -> Option<V> {
    lookup_from(entries, key, 0)
}

/// A lookup skips an entry that was added behind the ones it reads, unless
/// the key was unknown before.
pub proof fn lemma_lookup_push<V>(
    entries: Seq<(Seq<char>, V)>,
    key: Seq<char>,
    added: (Seq<char>, V),
    i: int,
)
    requires
        0 <= i <= entries.len(),
    ensures
        lookup_from(entries.push(added), key, i) == match lookup_from(entries, key, i) {
            Some(v) => Some(v),
            None => if added.0 == key {
                Some(added.1)
            } else {
                None
            },
        },
    decreases entries.len() - i,
{
    let more = entries.push(added);
    if i < entries.len() {
        if entries[i].0 != key {
            lemma_lookup_push(entries, key, added, i + 1);
        }
    } else {
        assert(lookup_from(more, key, i + 1) is None);
    }
}

/// The position of the first entry under `key` at or after position `i`.
pub open spec fn position_from<V>(
    entries: Seq<(Seq<char>, V)>,
    key: Seq<char>,
    i: int,
) -> Option<int>
    decreases entries.len() - i,
{
    if i < 0 || i >= entries.len() {
        None
    } else if entries[i].0 == key {
        Some(i)
    } else {
        position_from(entries, key, i + 1)
    }
}

/// The position of the first entry under `key`.
pub open spec fn position<V>(entries: Seq<(Seq<char>, V)>, key: Seq<char>) -> Option<int> {
    position_from(entries, key, 0)
}

/// `entries` after an insertion under `key`: the value replaced in place
/// where the key is present, the pair added behind the others where not.
pub open spec fn upserted<V>(entries: Seq<(Seq<char>, V)>, key: Seq<char>, value: V) -> Seq<
    (Seq<char>, V),
> {
    match position(entries, key) {
        Some(i) => entries.update(i, (key, value)),
        None => entries.push((key, value)),
    }
}

/// Whether no key occurs twice.
pub open spec fn distinct_keys<V>(entries: Seq<(Seq<char>, V)>) -> bool {
    forall|i: int, j: int| 0 <= i < j < entries.len() ==> entries[i].0 != entries[j].0
}

/// `position_from` returns the least position from `i` on that holds `key`,
/// and `None` exactly when no position from `i` on does.
pub proof fn lemma_position<V>(entries: Seq<(Seq<char>, V)>, key: Seq<char>, i: int)
    requires
        0 <= i <= entries.len(),
    ensures
        match position_from(entries, key, i) {
            Some(k) => i <= k < entries.len() && entries[k].0 == key && forall|j: int|
                i <= j < k ==> entries[j].0 != key,
            None => forall|j: int| i <= j < entries.len() ==> entries[j].0 != key,
        },
    decreases entries.len() - i,
{
    if i < entries.len() && entries[i].0 != key {
        lemma_position(entries, key, i + 1);
    }
}

/// An insertion keeps the keys distinct.
pub proof fn lemma_upserted_keeps_keys_distinct<V>(
    entries: Seq<(Seq<char>, V)>,
    key: Seq<char>,
    value: V,
)
    requires
        distinct_keys(entries),
    ensures
        distinct_keys(upserted(entries, key, value)),
{
    lemma_position(entries, key, 0);
}

/// What was inserted under a key is what a lookup of the key returns.
pub proof fn lemma_upserted_is_found<V>(entries: Seq<(Seq<char>, V)>, key: Seq<char>, value: V)
    ensures
        lookup(upserted(entries, key, value), key) == Some(value),
{
    lemma_position(entries, key, 0);
    let after = upserted(entries, key, value);
    match position(entries, key) {
        Some(k) => {
            lemma_lookup_skips(after, key, 0, k);
        },
        None => {
            lemma_lookup_skips(after, key, 0, entries.len() as int);
        },
    }
}

/// A lookup passes over entries under other keys.
pub proof fn lemma_lookup_skips<V>(entries: Seq<(Seq<char>, V)>, key: Seq<char>, from: int, to: int)
    requires
        0 <= from <= to <= entries.len(),
        forall|j: int| from <= j < to ==> (#[trigger] entries[j]).0 != key,
    ensures
        lookup_from(entries, key, from) == lookup_from(entries, key, to),
    decreases to - from,
{
    if from < to {
        lemma_lookup_skips(entries, key, from + 1, to);
    }
}

} // verus!

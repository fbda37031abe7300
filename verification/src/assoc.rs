//! Sequences of named values in which a name occurs once.

use vstd::prelude::*;
use crate::scan::{first_from, lemma_first_from, lemma_first_from_is};

verus! {

/// The entries named `key`.
pub open spec fn named<V>(key: Seq<char>) -> spec_fn((Seq<char>, V)) -> bool {
    |e: (Seq<char>, V)| e.0 == key
}

/// The position of the entry named `key`, or `m.len()` when there is none.
pub open spec fn key_position<V>(m: Seq<(Seq<char>, V)>, key: Seq<char>) -> int {
    first_from(m, named(key), 0)
}

/// Whether an entry is named `key`.
pub open spec fn has_key<V>(m: Seq<(Seq<char>, V)>, key: Seq<char>) -> bool {
    key_position(m, key) < m.len()
}

/// The value stored under `key`.
pub open spec fn lookup<V>(m: Seq<(Seq<char>, V)>, key: Seq<char>) -> Option<V> {
    if has_key(m, key) {
        Some(m[key_position(m, key)].1)
    } else {
        None
    }
}

/// The entries after storing `value` under `key`: an existing entry is
/// overwritten in place, a new one goes to the end.
pub open spec fn insert_entry<V>(m: Seq<(Seq<char>, V)>, key: Seq<char>, value: V) -> Seq<
    (Seq<char>, V),
> {
    if has_key(m, key) {
        m.update(key_position(m, key), (key, value))
    } else {
        m.push((key, value))
    }
}

/// No two entries share a name.
pub open spec fn distinct_keys<V>(m: Seq<(Seq<char>, V)>) -> bool {
    forall|i: int, j: int| 0 <= i < j < m.len() ==> (#[trigger] m[i]).0 != (#[trigger] m[j]).0
}

/// The position of a name is inside the sequence or at its end, no entry
/// before it has the name, and the entry at it has.
pub proof fn lemma_key_position<V>(m: Seq<(Seq<char>, V)>, key: Seq<char>)
    ensures
        0 <= key_position(m, key) <= m.len(),
        forall|j: int| 0 <= j < key_position(m, key) ==> (#[trigger] m[j]).0 != key,
        has_key(m, key) ==> m[key_position(m, key)].0 == key,
{
    lemma_first_from(m, named(key), 0);
}

/// The position of a name is the only one with those properties.
pub proof fn lemma_key_position_is<V>(m: Seq<(Seq<char>, V)>, key: Seq<char>, k: int)
    requires
        0 <= k <= m.len(),
        forall|j: int| 0 <= j < k ==> (#[trigger] m[j]).0 != key,
        k < m.len() ==> m[k].0 == key,
    ensures
        key_position(m, key) == k,
{
    lemma_first_from_is(m, named(key), 0, k);
}

/// Storing an entry keeps names distinct; afterwards the entry is found, and
/// what is found under every other name is unchanged.
pub proof fn lemma_insert_entry<V>(m: Seq<(Seq<char>, V)>, key: Seq<char>, value: V)
    requires
        distinct_keys(m),
    ensures
        distinct_keys(insert_entry(m, key, value)),
        lookup(insert_entry(m, key, value), key) == Some(value),
        forall|other: Seq<char>|
            other != key ==> lookup(insert_entry(m, key, value), other) == lookup(m, other),
{
    let after = insert_entry(m, key, value);
    let k = key_position(m, key);
    lemma_key_position(m, key);
    lemma_key_position_is(after, key, k);
    assert forall|other: Seq<char>| other != key implies lookup(after, other) == lookup(
        m,
        other,
    ) by {
        lemma_key_position(m, other);
        let j = key_position(m, other);
        lemma_key_position_is(after, other, if j < m.len() { j } else { after.len() as int });
    }
}

} // verus!

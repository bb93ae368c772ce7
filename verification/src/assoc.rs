//! Lists of pairs that are searched by the first component: the first pair
//! with a key is the pair of that key.

use vstd::prelude::*;

verus! {

/// The place of the first pair with the key `key`, if there is one.
pub open spec fn first_key<K, V>(entries: Seq<(K, V)>, key: K) -> Option<int>
    decreases entries.len(),
{
    if entries.len() == 0 {
        None
    } else {
        match first_key(entries.drop_last(), key) {
            Some(i) => Some(i),
            None => if entries.last().0 == key {
                Some(entries.len() - 1)
            } else {
                None
            },
        }
    }
}

/// What the first pair with the key `key` holds.
pub open spec fn value_of<K, V>(entries: Seq<(K, V)>, key: K) -> Option<V> {
    match first_key(entries, key) {
        Some(i) => Some(entries[i].1),
        None => None,
    }
}

/// The list with `value` in the first pair of the key `key`, which stays
/// where it is; with a new pair at the end where there is none.
pub open spec fn put<K, V>(entries: Seq<(K, V)>, key: K, value: V) -> Seq<(K, V)> {
    match first_key(entries, key) {
        Some(i) => entries.update(i, (key, value)),
        None => entries.push((key, value)),
    }
}

/// The list without the pairs of the key `key`.
pub open spec fn without_key<K, V>(entries: Seq<(K, V)>, key: K) -> Seq<(K, V)>
    decreases entries.len(),
{
    if entries.len() == 0 {
        Seq::empty()
    } else if entries.last().0 == key {
        without_key(entries.drop_last(), key)
    } else {
        without_key(entries.drop_last(), key).push(entries.last())
    }
}

/// The first pair of a key is a pair of that key, and none before it is.
pub proof fn lemma_first_key<K, V>(entries: Seq<(K, V)>, key: K)
    ensures
        match first_key(entries, key) {
            Some(i) => 0 <= i < entries.len() && entries[i].0 == key && forall|j: int|
                0 <= j < i ==> (#[trigger] entries[j]).0 != key,
            None => forall|j: int| 0 <= j < entries.len() ==> (#[trigger] entries[j]).0 != key,
        },
    decreases entries.len(),
{
    if entries.len() > 0 {
        let front = entries.drop_last();
        lemma_first_key(front, key);
        match first_key(front, key) {
            Some(i) => {
                assert forall|j: int| 0 <= j < i implies (#[trigger] entries[j]).0 != key by {
                    assert(front[j] == entries[j]);
                }
                assert(front[i] == entries[i]);
            },
            None => {
                assert forall|j: int| 0 <= j < entries.len() - 1 implies (
                #[trigger] entries[j]).0 != key by {
                    assert(front[j] == entries[j]);
                }
            },
        }
    }
}

/// A pair of the key `key` with none of that key before it is the first one.
pub proof fn lemma_first_key_at<K, V>(entries: Seq<(K, V)>, key: K, i: int)
    requires
        0 <= i < entries.len(),
        entries[i].0 == key,
        forall|j: int| 0 <= j < i ==> (#[trigger] entries[j]).0 != key,
    ensures
        first_key(entries, key) == Some(i),
{
    lemma_first_key(entries, key);
}

/// A list without a pair of the key `key` has no first one.
pub proof fn lemma_no_key<K, V>(entries: Seq<(K, V)>, key: K)
    requires
        forall|j: int| 0 <= j < entries.len() ==> (#[trigger] entries[j]).0 != key,
    ensures
        first_key(entries, key) is None,
{
    lemma_first_key(entries, key);
}

/// What is put under a key is found under it, at the place where the key
/// was before, or at the end where it is new; the other pairs stay.
pub proof fn lemma_put<K, V>(entries: Seq<(K, V)>, key: K, value: V)
    ensures
        value_of(put(entries, key, value), key) == Some(value),
        first_key(entries, key) is Some ==> first_key(put(entries, key, value), key)
            == first_key(entries, key) && put(entries, key, value).len() == entries.len(),
        first_key(entries, key) is None ==> first_key(put(entries, key, value), key) == Some(
            entries.len() as int,
        ),
        forall|other: K|
            other != key ==> #[trigger] value_of(put(entries, key, value), other) == value_of(
                entries,
                other,
            ),
{
    lemma_first_key(entries, key);
    let after = put(entries, key, value);
    match first_key(entries, key) {
        Some(i) => {
            lemma_first_key_at(after, key, i);
        },
        None => {
            lemma_first_key_at(after, key, entries.len() as int);
        },
    }
    assert forall|other: K| other != key implies #[trigger] value_of(after, other) == value_of(
        entries,
        other,
    ) by {
        lemma_first_key(entries, other);
        match first_key(entries, other) {
            Some(j) => {
                lemma_first_key_at(after, other, j);
            },
            None => {
                lemma_no_key(after, other);
            },
        }
    }
}

/// Putting twice under one key leaves the second value, where the first was
/// put.
pub proof fn lemma_put_twice<K, V>(entries: Seq<(K, V)>, key: K, first: V, second: V)
    ensures
        put(put(entries, key, first), key, second) == put(entries, key, second),
        first_key(put(put(entries, key, first), key, second), key) == first_key(
            put(entries, key, first),
            key,
        ),
{
    lemma_put(entries, key, first);
    lemma_put(put(entries, key, first), key, second);
    lemma_first_key(entries, key);
    assert(put(put(entries, key, first), key, second) =~= put(entries, key, second));
}

/// After the pairs of a key are taken out, the key is not found.
pub proof fn lemma_without_key<K, V>(entries: Seq<(K, V)>, key: K)
    ensures
        first_key(without_key(entries, key), key) is None,
        without_key(entries, key).len() <= entries.len(),
    decreases entries.len(),
{
    if entries.len() > 0 {
        lemma_without_key(entries.drop_last(), key);
        let rest = without_key(entries.drop_last(), key);
        if entries.last().0 != key {
            assert(rest.push(entries.last()).drop_last() =~= rest);
        }
    }
}

} // verus!

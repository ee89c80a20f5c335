//! Looking things up in a list of keyed entries.
use vstd::prelude::*;

verus! {

/// No key occurs twice in `keys`.
pub open spec fn distinct<K>(keys: Seq<K>) -> bool {
    forall|i: int, j: int| 0 <= i < j < keys.len() ==> keys[i] != keys[j]
}

/// Where `key` first occurs in `keys`; their number if it does not.
pub open spec fn index_of<K>(keys: Seq<K>, key: K) -> int
    decreases keys.len(),
{
    if keys.len() == 0 {
        0
    } else if keys[0] == key {
        0
    } else {
        1 + index_of(keys.drop_first(), key)
    }
}

/// `index_of` points at `key`, and nothing before it is `key`.
pub proof fn lemma_index_of<K>(keys: Seq<K>, key: K)
    ensures
        0 <= index_of(keys, key) <= keys.len(),
        index_of(keys, key) < keys.len() ==> keys[index_of(keys, key)] == key,
        forall|j: int| 0 <= j < index_of(keys, key) ==> keys[j] != key,
    decreases keys.len(),
{
    if keys.len() > 0 && keys[0] != key {
        let rest = keys.drop_first();
        lemma_index_of(rest, key);
        assert forall|j: int| 0 <= j < index_of(keys, key) implies keys[j] != key by {
            if j > 0 {
                assert(keys[j] == rest[j - 1]);
            }
        }
    }
}

/// If `key` occurs at `at` and nowhere before, `at` is its index; if it occurs nowhere, its
/// index is the number of keys.
pub proof fn lemma_index_is<K>(keys: Seq<K>, key: K, at: int)
    requires
        0 <= at <= keys.len(),
        at < keys.len() ==> keys[at] == key,
        forall|j: int| 0 <= j < at ==> keys[j] != key,
    ensures
        index_of(keys, key) == at,
{
    lemma_index_of(keys, key);
}

/// Taking one key out of a list without repeats leaves a list without repeats that no longer
/// holds the key.
pub proof fn lemma_remove_keeps_distinct<K>(keys: Seq<K>, at: int)
    requires
        distinct(keys),
        0 <= at < keys.len(),
    ensures
        distinct(keys.remove(at)),
        index_of(keys.remove(at), keys[at]) == keys.len() - 1,
{
    let rest = keys.remove(at);
    assert forall|i: int, j: int| 0 <= i < j < rest.len() implies rest[i] != rest[j] by {
        let i0 = if i < at { i } else { i + 1 };
        let j0 = if j < at { j } else { j + 1 };
        assert(rest[i] == keys[i0]);
        assert(rest[j] == keys[j0]);
    }
    assert forall|j: int| 0 <= j < rest.len() implies rest[j] != keys[at] by {
        let j0 = if j < at { j } else { j + 1 };
        assert(rest[j] == keys[j0]);
    }
    lemma_index_is(rest, keys[at], rest.len() as int);
}

/// Adding a key that is not in a list without repeats leaves a list without repeats.
pub proof fn lemma_push_keeps_distinct<K>(keys: Seq<K>, key: K)
    requires
        distinct(keys),
        index_of(keys, key) == keys.len(),
    ensures
        distinct(keys.push(key)),
        index_of(keys.push(key), key) == keys.len(),
{
    lemma_index_of(keys, key);
    let more = keys.push(key);
    assert forall|i: int, j: int| 0 <= i < j < more.len() implies more[i] != more[j] by {
        assert(more[i] == keys[i]);
        if j < keys.len() {
            assert(more[j] == keys[j]);
        }
    }
    lemma_index_is(more, key, keys.len() as int);
}

} // verus!

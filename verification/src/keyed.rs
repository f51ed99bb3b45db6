//! Sequences of keys, as they model the keys of a small map kept in a vector.

use vstd::prelude::*;

verus! {

/// `i` is the first position of `k` among `keys`.
pub open spec fn is_first_index<K>(keys: Seq<K>, k: K, i: int) -> bool {
    0 <= i < keys.len() && keys[i] == k && forall|j: int| 0 <= j < i ==> keys[j] != k
}

/// The first position of `k` among `keys`, where `k` is one of them.
pub open spec fn first_index<K>(keys: Seq<K>, k: K) -> int {
    choose|i: int| is_first_index(keys, k, i)
}

/// No key occurs twice.
pub open spec fn distinct<K>(keys: Seq<K>) -> bool {
    forall|i: int, j: int| 0 <= i < j < keys.len() ==> keys[i] != keys[j]
}

/// A first position is the first position.
pub proof fn lemma_first_index<K>(keys: Seq<K>, k: K, i: int)
    requires
        is_first_index(keys, k, i),
    ensures
        first_index(keys, k) == i,
        keys.contains(k),
{
    let c = first_index(keys, k);
    assert(is_first_index(keys, k, c));
}

/// A key that occurs has a first position.
pub proof fn lemma_first_index_exists<K>(keys: Seq<K>, k: K)
    requires
        keys.contains(k),
    ensures
        is_first_index(keys, k, first_index(keys, k)),
{
    let w = choose|i: int| 0 <= i < keys.len() && keys[i] == k;
    lemma_first_index_below(keys, k, w);
}

proof fn lemma_first_index_below<K>(keys: Seq<K>, k: K, w: int)
    requires
        0 <= w < keys.len(),
        keys[w] == k,
    ensures
        exists|i: int| is_first_index(keys, k, i),
    decreases w,
{
    if exists|j: int| 0 <= j < w && keys[j] == k {
        let j = choose|j: int| 0 <= j < w && keys[j] == k;
        lemma_first_index_below(keys, k, j);
    } else {
        assert(is_first_index(keys, k, w));
    }
}

/// Among distinct keys, every position of a key is its first.
pub proof fn lemma_distinct_position<K>(keys: Seq<K>, i: int)
    requires
        distinct(keys),
        0 <= i < keys.len(),
    ensures
        is_first_index(keys, keys[i], i),
        first_index(keys, keys[i]) == i,
{
    assert(is_first_index(keys, keys[i], i));
    lemma_first_index(keys, keys[i], i);
}

/// A new key at the end keeps the keys distinct, and the older keys in place.
pub proof fn lemma_push_fresh<K>(keys: Seq<K>, k: K)
    requires
        distinct(keys),
        !keys.contains(k),
    ensures
        distinct(keys.push(k)),
        is_first_index(keys.push(k), k, keys.len() as int),
        first_index(keys.push(k), k) == keys.len(),
        forall|o: K| o != k ==> keys.push(k).contains(o) == keys.contains(o),
        forall|o: K|
            o != k && keys.contains(o) ==> first_index(keys.push(k), o) == first_index(keys, o),
{
    let after = keys.push(k);
    assert forall|i: int, j: int| 0 <= i < j < after.len() implies after[i] != after[j] by {
        if j == keys.len() {
            assert(keys.contains(after[i]));
        }
    }
    assert forall|j: int| 0 <= j < keys.len() implies after[j] != k by {
        assert(keys.contains(keys[j]));
    }
    assert(is_first_index(after, k, keys.len() as int));
    lemma_first_index(after, k, keys.len() as int);
    assert forall|o: K| o != k implies after.contains(o) == keys.contains(o) by {
        if keys.contains(o) {
            let i = choose|i: int| 0 <= i < keys.len() && keys[i] == o;
            assert(after[i] == o);
        }
        if after.contains(o) {
            let i = choose|i: int| 0 <= i < after.len() && after[i] == o;
            assert(keys[i] == o);
        }
    }
    assert forall|o: K| o != k && keys.contains(o) implies first_index(after, o) == first_index(
        keys,
        o,
    ) by {
        lemma_first_index_exists(keys, o);
        let i = first_index(keys, o);
        assert(after[i] == o);
        assert(is_first_index(after, o, i)) by {
            assert forall|j: int| 0 <= j < i implies after[j] != o by {
                assert(after[j] == keys[j]);
            }
        }
        lemma_first_index(after, o, i);
    }
}

} // verus!

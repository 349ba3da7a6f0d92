//! Looking a key up in a sequence: the first position that holds it.
use vstd::prelude::*;

verus! {

/// The position `index` is the first that holds the key.
pub open spec fn is_first<K>(keys: Seq<K>, key: K, index: int) -> bool {
    &&& 0 <= index < keys.len()
    &&& keys[index] == key
    &&& forall|i: int| 0 <= i < index ==> keys[i] != key
}

/// The first position that holds the key, if any does.
pub open spec fn first_index<K>(keys: Seq<K>, key: K) -> Option<int> {
    if keys.contains(key) {
        Some(choose|index: int| is_first(keys, key, index))
    } else {
        None
    }
}

/// Whoever is the first position that holds the key is what `first_index`
/// gives.
pub proof fn lemma_first_index_is<K>(keys: Seq<K>, key: K, index: int)
    requires
        is_first(keys, key, index),
    ensures
        first_index(keys, key) == Some(index),
{
    assert(keys.contains(key));
    let other = choose|other: int| is_first(keys, key, other);
    assert(is_first(keys, key, other));
    if other < index {
        assert(keys[other] != key);
    }
    if index < other {
        assert(keys[index] != key);
    }
}

/// A sequence of which no position holds the key has no first such
/// position.
pub proof fn lemma_first_index_none<K>(keys: Seq<K>, key: K)
    requires
        forall|i: int| 0 <= i < keys.len() ==> keys[i] != key,
    ensures
        first_index(keys, key) is None,
{
    if keys.contains(key) {
        let i = choose|i: int| 0 <= i < keys.len() && keys[i] == key;
        assert(keys[i] != key);
    }
}

/// What `first_index` gives is the first position that holds the key, and
/// it gives nothing only if no position holds the key.
pub proof fn lemma_first_index_found<K>(keys: Seq<K>, key: K)
    ensures
        match first_index(keys, key) {
            Some(index) => is_first(keys, key, index),
            None => forall|i: int| 0 <= i < keys.len() ==> keys[i] != key,
        },
{
    if keys.contains(key) {
        lemma_first_exists(keys, key, keys.len() as int);
    }
}

proof fn lemma_first_exists<K>(keys: Seq<K>, key: K, upto: int)
    requires
        0 <= upto <= keys.len(),
        exists|i: int| 0 <= i < upto && keys[i] == key,
    ensures
        exists|index: int| is_first(keys, key, index),
    decreases upto,
{
    let last = upto - 1;
    if exists|i: int| 0 <= i < last && keys[i] == key {
        lemma_first_exists(keys, key, last);
    } else {
        let i = choose|i: int| 0 <= i < upto && keys[i] == key;
        assert(i == last);
        assert(is_first(keys, key, last));
    }
}

/// Finds the first position that holds an identifier.
pub fn find_id(ids: &Vec<u64>, id: u64) -> (found: Option<usize>)
    ensures
        match found {
            Some(index) => first_index(ids@, id) == Some(index as int) && is_first(
                ids@,
                id,
                index as int,
            ),
            None => first_index(ids@, id) is None && !ids@.contains(id),
        },
{
    let n: usize = ids.len();
    let mut i: usize = 0;
    while i < n
        invariant
            n == ids@.len(),
            i <= n,
            forall|k: int| 0 <= k < i ==> ids@[k] != id,
        decreases n - i,
    {
        if ids[i] == id {
            proof {
                lemma_first_index_is(ids@, id, i as int);
            }
            return Some(i);
        }
        i = i + 1;
    }
    proof {
        lemma_first_index_none(ids@, id);
    }
    None
}

} // verus!

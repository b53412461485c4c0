//! Lists of pairs as maps.

use vstd::prelude::*;

verus! {

/// Whether one of the pairs has this key.
pub open spec fn has_key<K, V>(pairs: Seq<(K, V)>, key: K) -> bool {
    exists|i: int| 0 <= i < pairs.len() && (#[trigger] pairs[i]).0 == key
}

/// The index of a pair with this key.
pub open spec fn key_index<K, V>(pairs: Seq<(K, V)>, key: K) -> int {
    choose|i: int| 0 <= i < pairs.len() && (#[trigger] pairs[i]).0 == key
}

/// Whether no two pairs have the same key.
pub open spec fn keys_differ<K, V>(pairs: Seq<(K, V)>) -> bool {
    forall|i: int, j: int|
        0 <= i < j < pairs.len() ==> (#[trigger] pairs[i]).0 != (#[trigger] pairs[j]).0
}

/// The map with these pairs.
pub open spec fn pairs_map<K, V>(pairs: Seq<(K, V)>) -> Map<K, V> {
    Map::new(|key: K| has_key(pairs, key), |key: K| pairs[key_index(pairs, key)].1)
}

/// A pair of the list is one of the map.
pub proof fn lemma_pairs_get<K, V>(pairs: Seq<(K, V)>, i: int)
    requires
        keys_differ(pairs),
        0 <= i < pairs.len(),
    ensures
        pairs_map(pairs).dom().contains(pairs[i].0),
        pairs_map(pairs)[pairs[i].0] == pairs[i].1,
{
    assert(has_key(pairs, pairs[i].0));
}

/// The keys of the list are those of the map, each once.
pub proof fn lemma_pairs_keys<K, V>(pairs: Seq<(K, V)>)
    requires
        keys_differ(pairs),
    ensures
        pairs.map_values(|pair: (K, V)| pair.0).no_duplicates(),
        pairs.map_values(|pair: (K, V)| pair.0).to_set() == pairs_map(pairs).dom(),
{
    let keys = pairs.map_values(|pair: (K, V)| pair.0);
    assert forall|i: int, j: int|
        0 <= i < keys.len() && 0 <= j < keys.len() && i != j implies keys[i] != keys[j] by {
        assert(pairs[i].0 == keys[i] && pairs[j].0 == keys[j]);
    }
    assert forall|key: K| #[trigger] keys.contains(key) == has_key(pairs, key) by {
        if keys.contains(key) {
            let i = choose|i: int| 0 <= i < keys.len() && keys[i] == key;
            assert(pairs[i].0 == key);
        }
        if has_key(pairs, key) {
            assert(keys[key_index(pairs, key)] == key);
        }
    }
    assert(keys.to_set() =~= pairs_map(pairs).dom());
}

/// A pair with a new key adds to the map.
pub proof fn lemma_pairs_push<K, V>(pairs: Seq<(K, V)>, key: K, value: V)
    requires
        keys_differ(pairs),
        !has_key(pairs, key),
    ensures
        keys_differ(pairs.push((key, value))),
        pairs_map(pairs.push((key, value))) == pairs_map(pairs).insert(key, value),
{
    let more = pairs.push((key, value));
    assert forall|i: int, j: int| 0 <= i < j < more.len() implies (#[trigger] more[i]).0 != (
    #[trigger] more[j]).0 by {
        assert(more[i] == pairs[i]);
        if j < pairs.len() {
            assert(more[j] == pairs[j]);
        }
    }
    assert forall|k: K| #[trigger] has_key(more, k) <==> (k == key || has_key(pairs, k)) by {
        if has_key(pairs, k) {
            let i = key_index(pairs, k);
            assert(more[i].0 == k);
        }
        if k == key {
            assert(more[pairs.len() as int].0 == k);
        }
        if has_key(more, k) && k != key {
            let i = key_index(more, k);
            assert(pairs[i].0 == k);
        }
    }
    assert forall|k: K| has_key(more, k) implies pairs_map(more)[k] == pairs_map(pairs).insert(
        key,
        value,
    )[k] by {
        let i = key_index(more, k);
        lemma_pairs_get(more, i);
        if k == key {
            lemma_pairs_get(more, pairs.len() as int);
        } else {
            assert(pairs[i].0 == k);
            lemma_pairs_get(pairs, i);
        }
    }
    assert(pairs_map(more) =~= pairs_map(pairs).insert(key, value));
}

/// A new value at an index is a new value of the key there.
pub proof fn lemma_pairs_update<K, V>(pairs: Seq<(K, V)>, i: int, value: V)
    requires
        keys_differ(pairs),
        0 <= i < pairs.len(),
    ensures
        keys_differ(pairs.update(i, (pairs[i].0, value))),
        pairs_map(pairs.update(i, (pairs[i].0, value))) == pairs_map(pairs).insert(
            pairs[i].0,
            value,
        ),
{
    let changed = pairs.update(i, (pairs[i].0, value));
    assert forall|k: int| 0 <= k < pairs.len() implies (#[trigger] changed[k]).0 == pairs[k].0 by {}
    assert(keys_differ(changed)) by {
        assert forall|j: int, k: int| 0 <= j < k < changed.len() implies (#[trigger] changed[j]).0
            != (#[trigger] changed[k]).0 by {
            assert(pairs[j].0 != pairs[k].0);
        }
    }
    assert forall|key: K| #[trigger] has_key(changed, key) <==> has_key(pairs, key) by {
        if has_key(pairs, key) {
            let k = key_index(pairs, key);
            assert(changed[k].0 == key);
        }
        if has_key(changed, key) {
            let k = key_index(changed, key);
            assert(pairs[k].0 == key);
        }
    }
    assert(has_key(pairs, pairs[i].0));
    assert forall|key: K| has_key(changed, key) implies pairs_map(changed)[key] == pairs_map(
        pairs,
    ).insert(pairs[i].0, value)[key] by {
        let k = key_index(changed, key);
        lemma_pairs_get(changed, k);
        lemma_pairs_get(pairs, k);
        if k == i {
        } else {
            assert(pairs[k].0 != pairs[i].0);
        }
    }
    assert(pairs_map(changed) =~= pairs_map(pairs).insert(pairs[i].0, value));
}

/// The map has as many keys as the list has pairs.
pub proof fn lemma_pairs_len<K, V>(pairs: Seq<(K, V)>)
    requires
        keys_differ(pairs),
    ensures
        pairs_map(pairs).dom().finite(),
        pairs_map(pairs).dom().len() == pairs.len(),
    decreases pairs.len(),
{
    if pairs.len() == 0 {
        assert(pairs_map(pairs).dom() =~= Set::empty());
    } else {
        let rest = pairs.drop_last();
        let (key, value) = pairs.last();
        assert(keys_differ(rest)) by {
            assert forall|i: int, j: int| 0 <= i < j < rest.len() implies (#[trigger] rest[i]).0
                != (#[trigger] rest[j]).0 by {
                assert(pairs[i].0 != pairs[j].0);
            }
        }
        assert(!has_key(rest, key)) by {
            if has_key(rest, key) {
                let i = key_index(rest, key);
                assert(pairs[i].0 != pairs[pairs.len() - 1].0);
            }
        }
        lemma_pairs_len(rest);
        lemma_pairs_push(rest, key, value);
        assert(rest.push((key, value)) =~= pairs);
        assert(!pairs_map(rest).dom().contains(key));
        assert(pairs_map(pairs).dom() =~= pairs_map(rest).dom().insert(key));
    }
}

} // verus!

//! Tables with unique keys, kept as sequences and read as maps.

use vstd::prelude::*;

verus! {

/// No key occurs twice.
pub open spec fn unique<K, V>(pairs: Seq<(K, V)>) -> bool {
    forall|i: int, j: int|
        0 <= i < j < pairs.len() ==> (#[trigger] pairs[i]).0 != (#[trigger] pairs[j]).0
}

pub open spec fn has_key<K, V>(pairs: Seq<(K, V)>, key: K) -> bool {
    exists|i: int| 0 <= i < pairs.len() && (#[trigger] pairs[i]).0 == key
}

pub open spec fn index_of<K, V>(pairs: Seq<(K, V)>, key: K) -> int {
    choose|i: int| 0 <= i < pairs.len() && (#[trigger] pairs[i]).0 == key
}

/// The map that takes each key to the value beside it.
pub open spec fn as_map<K, V>(pairs: Seq<(K, V)>) -> Map<K, V> {
    Map::new(|key: K| has_key(pairs, key), |key: K| pairs[index_of(pairs, key)].1)
}

/// A pair of the sequence is in the map.
pub proof fn map_at<K, V>(pairs: Seq<(K, V)>, i: int)
    requires
        unique(pairs),
        0 <= i < pairs.len(),
    ensures
        as_map(pairs).contains_key(pairs[i].0),
        as_map(pairs)[pairs[i].0] == pairs[i].1,
{
    assert(has_key(pairs, pairs[i].0));
    let k = index_of(pairs, pairs[i].0);
    assert(0 <= k < pairs.len() && pairs[k].0 == pairs[i].0);
    assert(k == i);
}

/// A key of the map is in the sequence.
pub proof fn map_has<K, V>(pairs: Seq<(K, V)>, key: K) -> (i: int)
    requires
        unique(pairs),
        as_map(pairs).contains_key(key),
    ensures
        0 <= i < pairs.len(),
        pairs[i] == (key, as_map(pairs)[key]),
{
    let i = index_of(pairs, key);
    assert(0 <= i < pairs.len() && pairs[i].0 == key);
    map_at(pairs, i);
    i
}

/// A new key at the end is an insertion.
pub proof fn map_push<K, V>(pairs: Seq<(K, V)>, key: K, value: V)
    requires
        unique(pairs),
        !as_map(pairs).contains_key(key),
    ensures
        unique(pairs.push((key, value))),
        as_map(pairs.push((key, value))) == as_map(pairs).insert(key, value),
{
    let after = pairs.push((key, value));
    assert forall|i: int, j: int| 0 <= i < j < after.len() implies (#[trigger] after[i]).0 != (
    #[trigger] after[j]).0 by {
        if j == pairs.len() {
            assert(pairs[i].0 != key);
        } else {
            assert(pairs[i].0 != pairs[j].0);
        }
    }
    assert forall|k: K| as_map(after).contains_key(k) implies as_map(pairs).insert(
        key,
        value,
    ).contains_key(k) && as_map(after)[k] == as_map(pairs).insert(key, value)[k] by {
        let i = map_has(after, k);
        if i < pairs.len() {
            assert(pairs[i] == after[i]);
            map_at(pairs, i);
        }
    }
    assert forall|k: K| as_map(pairs).insert(key, value).contains_key(k) implies as_map(
        after,
    ).contains_key(k) by {
        if k == key {
            map_at(after, pairs.len() as int);
        } else {
            let i = map_has(pairs, k);
            assert(after[i] == pairs[i]);
            map_at(after, i);
        }
    }
    assert(as_map(after) =~= as_map(pairs).insert(key, value));
}

/// A new value beside a key replaces the old one.
pub proof fn map_update<K, V>(pairs: Seq<(K, V)>, at: int, value: V)
    requires
        unique(pairs),
        0 <= at < pairs.len(),
    ensures
        unique(pairs.update(at, (pairs[at].0, value))),
        as_map(pairs.update(at, (pairs[at].0, value))) == as_map(pairs).insert(pairs[at].0, value),
{
    let key = pairs[at].0;
    let after = pairs.update(at, (key, value));
    assert forall|i: int, j: int| 0 <= i < j < after.len() implies (#[trigger] after[i]).0 != (
    #[trigger] after[j]).0 by {
        assert(pairs[i].0 != pairs[j].0);
    }
    assert forall|k: K| as_map(after).contains_key(k) implies as_map(pairs).insert(
        key,
        value,
    ).contains_key(k) && as_map(after)[k] == as_map(pairs).insert(key, value)[k] by {
        let i = map_has(after, k);
        map_at(pairs, i);
        if i != at {
            assert(pairs[i].0 != pairs[at].0) by {
                if i < at {
                } else {
                }
            }
        }
    }
    assert forall|k: K| as_map(pairs).insert(key, value).contains_key(k) implies as_map(
        after,
    ).contains_key(k) by {
        if k == key {
            map_at(after, at);
        } else {
            let i = map_has(pairs, k);
            map_at(after, i);
        }
    }
    assert(as_map(after) =~= as_map(pairs).insert(key, value));
}

/// A pair taken out takes its key with it.
pub proof fn map_remove<K, V>(pairs: Seq<(K, V)>, at: int)
    requires
        unique(pairs),
        0 <= at < pairs.len(),
    ensures
        unique(pairs.remove(at)),
        as_map(pairs.remove(at)) == as_map(pairs).remove(pairs[at].0),
{
    let after = pairs.remove(at);
    let key = pairs[at].0;
    assert forall|i: int, j: int| 0 <= i < j < after.len() implies (#[trigger] after[i]).0 != (
    #[trigger] after[j]).0 by {
        let i0 = if i < at {
            i
        } else {
            i + 1
        };
        let j0 = if j < at {
            j
        } else {
            j + 1
        };
        assert(pairs[i0].0 != pairs[j0].0);
    }
    assert forall|k: K| as_map(after).contains_key(k) implies as_map(pairs).remove(
        key,
    ).contains_key(k) && as_map(after)[k] == as_map(pairs)[k] by {
        let i = map_has(after, k);
        let i0 = if i < at {
            i
        } else {
            i + 1
        };
        assert(pairs[i0] == after[i]);
        map_at(pairs, i0);
        assert(pairs[i0].0 != pairs[at].0);
    }
    assert forall|k: K| as_map(pairs).remove(key).contains_key(k) implies as_map(
        after,
    ).contains_key(k) by {
        let i0 = map_has(pairs, k);
        let i = if i0 < at {
            i0
        } else {
            i0 - 1
        };
        assert(after[i] == pairs[i0]);
        map_at(after, i);
    }
    assert(as_map(after) =~= as_map(pairs).remove(key));
}

} // verus!

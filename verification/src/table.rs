//! A finite map kept as two sequences of equal length: keys without
//! repetition, and the value of each key at the same place.

use vstd::prelude::*;

verus! {

/// The map that sends each key to the value at its place.
pub open spec fn table<K, V>(keys: Seq<K>, vals: Seq<V>) -> Map<K, V> {
    Map::new(|k: K| keys.contains(k), |k: K| vals[keys.index_of(k)])
}

/// The value of the key at place `i` is the value at place `i`.
pub proof fn lemma_table_at<K, V>(keys: Seq<K>, vals: Seq<V>, i: int)
    requires
        keys.no_duplicates(),
        0 <= i < keys.len(),
    ensures
        table(keys, vals).contains_key(keys[i]),
        table(keys, vals)[keys[i]] == vals[i],
{
    let j = keys.index_of(keys[i]);
    assert(keys[j] == keys[i]);
}

/// A key that stands at no place is not in the map.
pub proof fn lemma_table_missing<K, V>(keys: Seq<K>, vals: Seq<V>, key: K)
    requires
        forall|i: int| 0 <= i < keys.len() ==> keys[i] != key,
    ensures
        !table(keys, vals).contains_key(key),
{
}

/// Taking out place `i` removes its key from the map and nothing else.
pub proof fn lemma_table_remove<K, V>(keys: Seq<K>, vals: Seq<V>, i: int)
    requires
        keys.no_duplicates(),
        keys.len() == vals.len(),
        0 <= i < keys.len(),
    ensures
        keys.remove(i).no_duplicates(),
        table(keys.remove(i), vals.remove(i)) == table(keys, vals).remove(keys[i]),
{
    let ks = keys.remove(i);
    let vs = vals.remove(i);
    assert forall|a: int, b: int| 0 <= a < ks.len() && 0 <= b < ks.len() && a != b implies ks[a]
        != ks[b] by {
        let a0 = if a < i { a } else { a + 1 };
        let b0 = if b < i { b } else { b + 1 };
        assert(keys[a0] != keys[b0]);
    }
    assert forall|k: K| table(ks, vs).contains_key(k) <==> table(keys, vals).remove(
        keys[i],
    ).contains_key(k) by {
        if ks.contains(k) {
            let a = choose|a: int| 0 <= a < ks.len() && ks[a] == k;
            let a0 = if a < i { a } else { a + 1 };
            assert(keys[a0] == k);
        }
        if keys.contains(k) && k != keys[i] {
            let a0 = choose|a: int| 0 <= a < keys.len() && keys[a] == k;
            let a = if a0 < i { a0 } else { a0 - 1 };
            assert(ks[a] == k);
        }
    }
    assert forall|k: K| table(ks, vs).contains_key(k) implies table(ks, vs)[k] == table(
        keys,
        vals,
    ).remove(keys[i])[k] by {
        let a = ks.index_of(k);
        let a0 = if a < i { a } else { a + 1 };
        lemma_table_at(keys, vals, a0);
    }
    assert(table(ks, vs) =~= table(keys, vals).remove(keys[i]));
}

/// A new key with its value at the end adds the pair to the map.
pub proof fn lemma_table_push<K, V>(keys: Seq<K>, vals: Seq<V>, key: K, val: V)
    requires
        keys.no_duplicates(),
        keys.len() == vals.len(),
        !keys.contains(key),
    ensures
        keys.push(key).no_duplicates(),
        table(keys.push(key), vals.push(val)) == table(keys, vals).insert(key, val),
{
    let ks = keys.push(key);
    let vs = vals.push(val);
    let n = keys.len() as int;
    assert forall|a: int, b: int| 0 <= a < ks.len() && 0 <= b < ks.len() && a != b implies ks[a]
        != ks[b] by {
        if a < n && b < n {
            assert(keys[a] != keys[b]);
        } else if a < n {
            assert(keys.contains(keys[a]));
        } else {
            assert(keys.contains(keys[b]));
        }
    }
    assert forall|k: K| table(ks, vs).contains_key(k) <==> table(keys, vals).insert(
        key,
        val,
    ).contains_key(k) by {
        if ks.contains(k) {
            let a = choose|a: int| 0 <= a < ks.len() && ks[a] == k;
            if a < n {
                assert(keys[a] == k);
            }
        }
        if k == key {
            assert(ks[n] == k);
        } else if keys.contains(k) {
            let a = choose|a: int| 0 <= a < keys.len() && keys[a] == k;
            assert(ks[a] == k);
        }
    }
    assert forall|k: K| table(ks, vs).contains_key(k) implies table(ks, vs)[k] == table(
        keys,
        vals,
    ).insert(key, val)[k] by {
        let a = ks.index_of(k);
        lemma_table_at(ks, vs, a);
        if a < n {
            lemma_table_at(keys, vals, a);
        }
    }
    assert(table(ks, vs) =~= table(keys, vals).insert(key, val));
}

/// The map has as many keys as there are places.
pub proof fn lemma_table_len<K, V>(keys: Seq<K>, vals: Seq<V>)
    requires
        keys.no_duplicates(),
    ensures
        table(keys, vals).dom().finite(),
        table(keys, vals).dom().len() == keys.len(),
{
    keys.unique_seq_to_set();
    assert(table(keys, vals).dom() =~= keys.to_set());
}

} // verus!

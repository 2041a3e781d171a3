//! A list of keys beside a list of values, read as a dictionary.
//!
//! The stores keep their records in vectors. This module says which map such
//! a pair of lists stands for, and how the map changes when the lists do.

use vstd::prelude::*;

verus! {

/// The map that sends each key to the value at the key's place.
pub open spec fn table<K, V>(keys: Seq<K>, values: Seq<V>) -> Map<K, V> {
    Map::new(|k: K| keys.contains(k), |k: K| values[keys.index_of(k)])
}

/// A key that stands once in the list is found at its place.
pub proof fn lemma_table_lookup<K, V>(keys: Seq<K>, values: Seq<V>, i: int)
    requires
        keys.no_duplicates(),
        0 <= i < keys.len(),
    ensures
        keys.contains(keys[i]),
        keys.index_of(keys[i]) == i,
        table(keys, values).contains_key(keys[i]),
        table(keys, values)[keys[i]] == values[i],
{
    assert(keys.contains(keys[i]));
}

/// The keys of the table are those of the list, and there are as many.
pub proof fn lemma_table_domain<K, V>(keys: Seq<K>, values: Seq<V>)
    requires
        keys.no_duplicates(),
    ensures
        table(keys, values).dom() == keys.to_set(),
        table(keys, values).dom().finite(),
        table(keys, values).dom().len() == keys.len(),
{
    assert(table(keys, values).dom() =~= keys.to_set());
    vstd::seq_lib::seq_to_set_is_finite(keys);
    keys.unique_seq_to_set();
}

/// Replacing the value at a place replaces what its key maps to.
pub proof fn lemma_table_update<K, V>(keys: Seq<K>, values: Seq<V>, i: int, v: V)
    requires
        keys.no_duplicates(),
        values.len() == keys.len(),
        0 <= i < keys.len(),
    ensures
        table(keys, values.update(i, v)) == table(keys, values).insert(keys[i], v),
{
    let before = table(keys, values);
    let after = table(keys, values.update(i, v));
    lemma_table_lookup(keys, values, i);
    assert forall|k: K| after.contains_key(k) implies #[trigger] after[k] == before.insert(
        keys[i],
        v,
    )[k] by {
        let at = keys.index_of(k);
        lemma_table_lookup(keys, values, at);
    }
    assert(after =~= before.insert(keys[i], v));
}

/// Putting a new key and its value into the lists at one place adds the pair
/// to the table and leaves every key standing once.
pub proof fn lemma_table_insert<K, V>(keys: Seq<K>, values: Seq<V>, i: int, k: K, v: V)
    requires
        keys.no_duplicates(),
        values.len() == keys.len(),
        !keys.contains(k),
        0 <= i <= keys.len(),
    ensures
        keys.insert(i, k).no_duplicates(),
        table(keys.insert(i, k), values.insert(i, v)) == table(keys, values).insert(k, v),
{
    let keys2 = keys.insert(i, k);
    let values2 = values.insert(i, v);
    assert forall|a: int, b: int|
        0 <= a < keys2.len() && 0 <= b < keys2.len() && a != b implies keys2[a] != keys2[b] by {
        let a0 = if a < i { a } else { a - 1 };
        let b0 = if b < i { b } else { b - 1 };
        if a == i {
            assert(keys2[b] == keys[b0]);
        } else if b == i {
            assert(keys2[a] == keys[a0]);
        } else {
            assert(keys2[a] == keys[a0]);
            assert(keys2[b] == keys[b0]);
        }
    }
    let before = table(keys, values);
    let after = table(keys2, values2);
    assert(keys2[i] == k);
    lemma_table_lookup(keys2, values2, i);
    assert forall|x: K| before.insert(k, v).contains_key(x) implies after.contains_key(x) by {
        if x != k {
            let at = keys.index_of(x);
            let at2 = if at < i { at } else { at + 1 };
            assert(keys2[at2] == x);
        }
    }
    assert forall|x: K| after.contains_key(x) implies before.insert(k, v).contains_key(x)
        && #[trigger] after[x] == before.insert(k, v)[x] by {
        let at2 = keys2.index_of(x);
        lemma_table_lookup(keys2, values2, at2);
        if at2 != i {
            let at = if at2 < i { at2 } else { at2 - 1 };
            assert(keys[at] == x);
            lemma_table_lookup(keys, values, at);
        }
    }
    assert(after =~= before.insert(k, v));
}

} // verus!

//! The map that a list of distinct keys and a list of values of the same
//! length stand for, and what pushing, replacing and removing an entry do to
//! it. The two stores of the library keep their entries in such lists.

use vstd::prelude::*;

verus! {

/// No key occurs twice.
pub open spec fn distinct<K>(keys: Seq<K>) -> bool {
    forall|i: int, j: int| 0 <= i < j < keys.len() ==> keys[i] != keys[j]
}

/// The map that takes each key to the value at the same position.
pub open spec fn assoc_map<K, V>(keys: Seq<K>, vals: Seq<V>) -> Map<K, V> {
    Map::new(|k: K| keys.contains(k), |k: K| vals[keys.index_of(k)])
}

/// With distinct keys, the value of the key at position `i` is the value
/// at position `i`.
pub proof fn lemma_assoc_lookup<K, V>(keys: Seq<K>, vals: Seq<V>, i: int)
    requires
        distinct(keys),
        keys.len() == vals.len(),
        0 <= i < keys.len(),
    ensures
        assoc_map(keys, vals).contains_key(keys[i]),
        assoc_map(keys, vals)[keys[i]] == vals[i],
        keys.index_of(keys[i]) == i,
{
    let j = keys.index_of(keys[i]);
    assert(0 <= j < keys.len() && keys[j] == keys[i]);
    if j < i {
        assert(keys[j] != keys[i]);
    } else if i < j {
        assert(keys[i] != keys[j]);
    }
}

/// The map of no entries is empty.
pub proof fn lemma_assoc_empty<K, V>()
    ensures
        assoc_map(Seq::<K>::empty(), Seq::<V>::empty()) == Map::<K, V>::empty(),
        distinct(Seq::<K>::empty()),
{
    assert(assoc_map(Seq::<K>::empty(), Seq::<V>::empty()) =~= Map::<K, V>::empty());
}

/// Pushing an entry with a new key inserts it.
pub proof fn lemma_assoc_push<K, V>(keys: Seq<K>, vals: Seq<V>, k: K, v: V)
    requires
        distinct(keys),
        keys.len() == vals.len(),
        !keys.contains(k),
    ensures
        distinct(keys.push(k)),
        assoc_map(keys.push(k), vals.push(v)) == assoc_map(keys, vals).insert(k, v),
{
    let keys2 = keys.push(k);
    let vals2 = vals.push(v);
    assert forall|i: int, j: int| 0 <= i < j < keys2.len() implies keys2[i] != keys2[j] by {
        if j == keys.len() {
            assert(keys[i] == keys2[i]);
        } else {
            assert(keys[i] != keys[j]);
        }
    }
    let a = assoc_map(keys2, vals2);
    let b = assoc_map(keys, vals).insert(k, v);
    assert forall|x: K| a.contains_key(x) <==> b.contains_key(x) by {
        if keys2.contains(x) {
            let i = choose|i: int| 0 <= i < keys2.len() && keys2[i] == x;
            if i < keys.len() {
                assert(keys[i] == x);
            }
        }
        if keys.contains(x) {
            let i = choose|i: int| 0 <= i < keys.len() && keys[i] == x;
            assert(keys2[i] == x);
        }
        if x == k {
            assert(keys2[keys.len() as int] == x);
        }
    }
    assert forall|x: K| a.contains_key(x) implies a[x] == b[x] by {
        let i = choose|i: int| 0 <= i < keys2.len() && keys2[i] == x;
        lemma_assoc_lookup(keys2, vals2, i);
        if i < keys.len() {
            assert(keys[i] == x);
            lemma_assoc_lookup(keys, vals, i);
        }
    }
    assert(a =~= b);
}

/// Replacing the value at position `i` replaces the value of that key.
pub proof fn lemma_assoc_update<K, V>(keys: Seq<K>, vals: Seq<V>, i: int, v: V)
    requires
        distinct(keys),
        keys.len() == vals.len(),
        0 <= i < keys.len(),
    ensures
        assoc_map(keys, vals.update(i, v)) == assoc_map(keys, vals).insert(keys[i], v),
{
    let vals2 = vals.update(i, v);
    let a = assoc_map(keys, vals2);
    let b = assoc_map(keys, vals).insert(keys[i], v);
    assert forall|x: K| a.contains_key(x) implies a[x] == b[x] by {
        let j = choose|j: int| 0 <= j < keys.len() && keys[j] == x;
        lemma_assoc_lookup(keys, vals2, j);
        lemma_assoc_lookup(keys, vals, j);
        lemma_assoc_lookup(keys, vals, i);
    }
    assert(a =~= b);
}

/// Removing the entry at position `i` removes that key.
pub proof fn lemma_assoc_remove<K, V>(keys: Seq<K>, vals: Seq<V>, i: int)
    requires
        distinct(keys),
        keys.len() == vals.len(),
        0 <= i < keys.len(),
    ensures
        distinct(keys.remove(i)),
        assoc_map(keys.remove(i), vals.remove(i)) == assoc_map(keys, vals).remove(keys[i]),
{
    let keys2 = keys.remove(i);
    let vals2 = vals.remove(i);
    assert forall|a: int| 0 <= a < keys2.len() implies #[trigger] keys2[a] == keys[if a < i {
        a
    } else {
        a + 1
    }] by {}
    assert forall|a: int| 0 <= a < vals2.len() implies #[trigger] vals2[a] == vals[if a < i {
        a
    } else {
        a + 1
    }] by {}
    assert forall|a: int, b: int| 0 <= a < b < keys2.len() implies keys2[a] != keys2[b] by {
        let a1 = if a < i {
            a
        } else {
            a + 1
        };
        let b1 = if b < i {
            b
        } else {
            b + 1
        };
        assert(keys[a1] != keys[b1]);
    }
    let m2 = assoc_map(keys2, vals2);
    let m = assoc_map(keys, vals).remove(keys[i]);
    assert forall|x: K| m2.contains_key(x) <==> m.contains_key(x) by {
        if keys2.contains(x) {
            let a = choose|a: int| 0 <= a < keys2.len() && keys2[a] == x;
            let a1 = if a < i {
                a
            } else {
                a + 1
            };
            assert(keys[a1] == x);
            if a1 < i {
                assert(keys[a1] != keys[i]);
            } else {
                assert(keys[i] != keys[a1]);
            }
        }
        if keys.contains(x) && x != keys[i] {
            let a = choose|a: int| 0 <= a < keys.len() && keys[a] == x;
            let a2 = if a < i {
                a
            } else {
                a - 1
            };
            assert(keys2[a2] == x);
        }
    }
    assert forall|x: K| m2.contains_key(x) implies m2[x] == m[x] by {
        let a = choose|a: int| 0 <= a < keys2.len() && keys2[a] == x;
        let a1 = if a < i {
            a
        } else {
            a + 1
        };
        lemma_assoc_lookup(keys2, vals2, a);
        lemma_assoc_lookup(keys, vals, a1);
    }
    assert(m2 =~= m);
}

} // verus!

//! Keys and values kept side by side in two sequences, read as a map.

use vstd::prelude::*;

verus! {

/// The map that takes `keys[i]` to `values[i]`. It is meant for keys
/// without duplicates and as many values as keys.
pub open spec fn assoc<K, V>(keys: Seq<K>, values: Seq<V>) -> Map<K, V> {
    Map::new(|k: K| keys.contains(k), |k: K| values[keys.index_of(k)])
}

/// Each key is in the map, with the value at its own index.
pub proof fn lemma_assoc_index<K, V>(keys: Seq<K>, values: Seq<V>, i: int)
    requires
        keys.no_duplicates(),
        keys.len() == values.len(),
        0 <= i < keys.len(),
    ensures
        assoc(keys, values).dom().contains(keys[i]),
        assoc(keys, values)[keys[i]] == values[i],
{
    assert(keys.contains(keys[i]));
}

/// A key of the map stands at some index, with its value beside it.
pub proof fn lemma_assoc_key<K, V>(keys: Seq<K>, values: Seq<V>, k: K) -> (i: int)
    requires
        keys.len() == values.len(),
        assoc(keys, values).dom().contains(k),
    ensures
        0 <= i < keys.len(),
        keys[i] == k,
        assoc(keys, values)[k] == values[i],
{
    keys.index_of(k)
}

/// Replacing the value at an index replaces the value of its key.
pub proof fn lemma_assoc_update<K, V>(keys: Seq<K>, values: Seq<V>, i: int, v: V)
    requires
        keys.no_duplicates(),
        keys.len() == values.len(),
        0 <= i < keys.len(),
    ensures
        assoc(keys, values.update(i, v)) == assoc(keys, values).insert(keys[i], v),
{
    let before = assoc(keys, values);
    let after = assoc(keys, values.update(i, v));
    assert(keys.contains(keys[i]));
    assert forall|k: K| after.dom().contains(k) <==> before.insert(keys[i], v).dom().contains(
        k,
    ) by {}
    assert forall|k: K| #[trigger] after.dom().contains(k) implies after[k] == before.insert(
        keys[i],
        v,
    )[k] by {
        let j = keys.index_of(k);
        assert(0 <= j < keys.len() && keys[j] == k);
    }
    assert(after =~= before.insert(keys[i], v));
}

/// A new key at the end, with its value, is one more entry of the map.
pub proof fn lemma_assoc_push<K, V>(keys: Seq<K>, values: Seq<V>, k: K, v: V)
    requires
        keys.no_duplicates(),
        keys.len() == values.len(),
        !keys.contains(k),
    ensures
        keys.push(k).no_duplicates(),
        assoc(keys.push(k), values.push(v)) == assoc(keys, values).insert(k, v),
{
    let before = assoc(keys, values);
    let after = assoc(keys.push(k), values.push(v));
    let longer = keys.push(k);
    lemma_push_no_duplicates(keys, k);
    assert forall|x: K| after.dom().contains(x) <==> before.insert(k, v).dom().contains(x) by {
        if keys.contains(x) {
            let j = keys.index_of(x);
            assert(longer[j] == x);
        }
        if longer.contains(x) {
            let j = longer.index_of(x);
            if j < keys.len() {
                assert(keys[j] == x);
            }
        }
        assert(longer[keys.len() as int] == k);
    }
    assert forall|x: K| #[trigger] after.dom().contains(x) implies after[x] == before.insert(
        k,
        v,
    )[x] by {
        let j = longer.index_of(x);
        assert(0 <= j < longer.len() && longer[j] == x);
        if x != k {
            assert(j < keys.len());
            assert(keys[j] == x);
            let old_j = keys.index_of(x);
            assert(0 <= old_j < keys.len() && keys[old_j] == x);
        }
    }
    assert(after =~= before.insert(k, v));
}

/// Taking out the key and the value at an index takes the key out of the
/// map.
pub proof fn lemma_assoc_remove<K, V>(keys: Seq<K>, values: Seq<V>, i: int)
    requires
        keys.no_duplicates(),
        keys.len() == values.len(),
        0 <= i < keys.len(),
    ensures
        keys.remove(i).no_duplicates(),
        assoc(keys.remove(i), values.remove(i)) == assoc(keys, values).remove(keys[i]),
{
    let before = assoc(keys, values);
    let shorter = keys.remove(i);
    let after = assoc(shorter, values.remove(i));
    assert forall|a: int| 0 <= a < shorter.len() implies shorter[a] == keys[if a < i {
        a
    } else {
        a + 1
    }] by {}
    assert forall|x: K| after.dom().contains(x) <==> before.remove(keys[i]).dom().contains(x) by {
        if keys.contains(x) && x != keys[i] {
            let j = keys.index_of(x);
            let a = if j < i {
                j
            } else {
                j - 1
            };
            assert(shorter[a] == x);
        }
        if shorter.contains(x) {
            let a = shorter.index_of(x);
            let j = if a < i {
                a
            } else {
                a + 1
            };
            assert(keys[j] == x);
        }
    }
    assert forall|x: K| #[trigger] after.dom().contains(x) implies after[x] == before.remove(
        keys[i],
    )[x] by {
        let a = shorter.index_of(x);
        assert(0 <= a < shorter.len() && shorter[a] == x);
        let j = if a < i {
            a
        } else {
            a + 1
        };
        assert(keys[j] == x);
        let old_j = keys.index_of(x);
        assert(0 <= old_j < keys.len() && keys[old_j] == x);
        assert(values.remove(i)[a] == values[j]);
    }
    assert(after =~= before.remove(keys[i]));
}

/// A sequence without duplicates stays so when an item that it does not
/// hold is added at its end.
pub proof fn lemma_push_no_duplicates<T>(s: Seq<T>, x: T)
    requires
        s.no_duplicates(),
        !s.contains(x),
    ensures
        s.push(x).no_duplicates(),
{
    let longer = s.push(x);
    assert forall|a: int, b: int| 0 <= a < longer.len() && 0 <= b < longer.len() && a
        != b implies longer[a] != longer[b] by {
        if a < s.len() {
            assert(s.contains(s[a]));
        }
        if b < s.len() {
            assert(s.contains(s[b]));
        }
    }
}

/// An item added at the end of a sequence is one more item of its set.
pub proof fn lemma_to_set_push<T>(s: Seq<T>, x: T)
    ensures
        s.push(x).to_set() == s.to_set().insert(x),
{
    let longer = s.push(x);
    assert forall|y: T| longer.to_set().contains(y) <==> s.to_set().insert(x).contains(y) by {
        if s.contains(y) {
            let j = s.index_of(y);
            assert(longer[j] == y);
        }
        if longer.contains(y) {
            let j = longer.index_of(y);
            if j < s.len() {
                assert(s[j] == y);
            }
        }
        assert(longer[s.len() as int] == x);
    }
    assert(longer.to_set() =~= s.to_set().insert(x));
}

/// Taking the item at an index out of a sequence without duplicates takes
/// it out of its set.
pub proof fn lemma_to_set_remove<T>(s: Seq<T>, i: int)
    requires
        s.no_duplicates(),
        0 <= i < s.len(),
    ensures
        s.remove(i).no_duplicates(),
        s.remove(i).to_set() == s.to_set().remove(s[i]),
{
    let shorter = s.remove(i);
    assert forall|a: int| 0 <= a < shorter.len() implies shorter[a] == s[if a < i {
        a
    } else {
        a + 1
    }] by {}
    assert forall|y: T| shorter.to_set().contains(y) <==> s.to_set().remove(s[i]).contains(y) by {
        if s.contains(y) && y != s[i] {
            let j = s.index_of(y);
            let a = if j < i {
                j
            } else {
                j - 1
            };
            assert(shorter[a] == y);
        }
        if shorter.contains(y) {
            let a = shorter.index_of(y);
            let j = if a < i {
                a
            } else {
                a + 1
            };
            assert(s[j] == y);
        }
    }
    assert(shorter.to_set() =~= s.to_set().remove(s[i]));
}

} // verus!

//! A small theory of association sequences: a sequence of entries
//! with pairwise-distinct keys, read as a `Map` from key to entry.
//! The executable directories keep their entries in a `Vec` and
//! state their contracts over this map view; the lemmas here carry
//! each `Vec` operation over to the map.

use vstd::prelude::*;

verus! {

/// Whether some entry of `s` has key `k` under key function `keyf`.
pub open spec fn has_key<T, K>(s: Seq<T>, keyf: spec_fn(T) -> K, k: K) -> bool {
    exists|i: int| 0 <= i < s.len() && keyf(s[i]) == k
}

/// An index of an entry of `s` whose key is `k`.
pub open spec fn index_of_key<T, K>(s: Seq<T>, keyf: spec_fn(T) -> K, k: K) -> int {
    choose|i: int| 0 <= i < s.len() && keyf(s[i]) == k
}

/// No two entries of `s` share a key.
pub open spec fn keys_unique<T, K>(s: Seq<T>, keyf: spec_fn(T) -> K) -> bool {
    forall|i: int, j: int| 0 <= i < j < s.len() ==> keyf(s[i]) != keyf(s[j])
}

/// The sequence read as a map from key to entry.
pub open spec fn as_map<T, K>(s: Seq<T>, keyf: spec_fn(T) -> K) -> Map<K, T> {
    Map::new(|k: K| has_key(s, keyf, k), |k: K| s[index_of_key(s, keyf, k)])
}

/// A mutable borrow of one entry of a vector, with the final vector
/// expressed through the final borrow.
pub fn vec_index_mut<T>(vec: &mut Vec<T>, i: usize) -> (element: &mut T)
    requires
        i < old(vec).len(),
    ensures
        *element == old(vec)@[i as int],
        final(vec)@ == old(vec)@.update(i as int, *final(element)),
{
    &mut vec[i]
}

/// Every value of the map view carries the key it is filed under.
pub proof fn lemma_value_carries_key<T, K>(s: Seq<T>, keyf: spec_fn(T) -> K, k: K)
    requires
        as_map(s, keyf).dom().contains(k),
    ensures
        keyf(as_map(s, keyf)[k]) == k,
{
    let i = index_of_key(s, keyf, k);
    assert(0 <= i < s.len() && keyf(s[i]) == k);
}

/// Under distinct keys, the entry at index `i` is the map's value at
/// that entry's key.
pub proof fn lemma_entry_is_value<T, K>(s: Seq<T>, keyf: spec_fn(T) -> K, i: int)
    requires
        keys_unique(s, keyf),
        0 <= i < s.len(),
    ensures
        as_map(s, keyf).dom().contains(keyf(s[i])),
        as_map(s, keyf)[keyf(s[i])] == s[i],
{
    let k = keyf(s[i]);
    assert(has_key(s, keyf, k));
    let j = index_of_key(s, keyf, k);
    assert(0 <= j < s.len() && keyf(s[j]) == k);
    if i < j {
        assert(keyf(s[i]) != keyf(s[j]));
    } else if j < i {
        assert(keyf(s[j]) != keyf(s[i]));
    }
}

/// The empty sequence reads as the empty map.
pub proof fn lemma_empty<T, K>(keyf: spec_fn(T) -> K)
    ensures
        keys_unique(Seq::<T>::empty(), keyf),
        as_map(Seq::<T>::empty(), keyf) =~= Map::<K, T>::empty(),
{
}

/// Appending an entry with a fresh key inserts it into the map view.
pub proof fn lemma_push<T, K>(s: Seq<T>, keyf: spec_fn(T) -> K, v: T)
    requires
        keys_unique(s, keyf),
        !has_key(s, keyf, keyf(v)),
    ensures
        keys_unique(s.push(v), keyf),
        as_map(s.push(v), keyf) =~= as_map(s, keyf).insert(keyf(v), v),
{
    let t = s.push(v);
    let kv = keyf(v);
    assert forall|i: int, j: int| 0 <= i < j < t.len() implies keyf(t[i]) != keyf(t[j]) by {
        if j == s.len() {
            assert(t[i] == s[i]);
            if keyf(s[i]) == kv {
                assert(has_key(s, keyf, kv));
            }
        } else {
            assert(t[i] == s[i] && t[j] == s[j]);
        }
    }
    let m1 = as_map(t, keyf);
    let m2 = as_map(s, keyf).insert(kv, v);
    assert forall|k: K| m1.dom().contains(k) implies m2.dom().contains(k) && m1[k] == m2[k] by {
        let i = index_of_key(t, keyf, k);
        assert(0 <= i < t.len() && keyf(t[i]) == k);
        if i == s.len() {
            assert(k == kv);
            assert(m1[k] == v);
        } else {
            assert(t[i] == s[i]);
            assert(has_key(s, keyf, k));
            if k == kv {
                assert(false);
            }
            lemma_entry_is_value(s, keyf, i);
            lemma_entry_is_value(t, keyf, i);
        }
    }
    assert forall|k: K| m2.dom().contains(k) implies m1.dom().contains(k) by {
        if k == kv {
            assert(keyf(t[s.len() as int]) == kv);
        } else {
            let j = index_of_key(s, keyf, k);
            assert(0 <= j < s.len() && keyf(s[j]) == k);
            assert(keyf(t[j]) == k);
        }
    }
    assert(m1 =~= m2);
}

/// Under distinct keys, the map view has exactly one key per entry.
pub proof fn lemma_unique_len<T, K>(s: Seq<T>, keyf: spec_fn(T) -> K)
    requires
        keys_unique(s, keyf),
    ensures
        as_map(s, keyf).dom().finite(),
        as_map(s, keyf).dom().len() == s.len(),
    decreases s.len(),
{
    if s.len() > 0 {
        let t = s.drop_last();
        let v = s.last();
        assert(s =~= t.push(v));
        if has_key(t, keyf, keyf(v)) {
            let j = index_of_key(t, keyf, keyf(v));
            assert(keyf(s[j]) == keyf(s[s.len() - 1]));
            assert(false);
        }
        lemma_unique_len(t, keyf);
        lemma_push(t, keyf, v);
        let dt = as_map(t, keyf).dom();
        assert(as_map(s, keyf).dom() =~= dt.insert(keyf(v)));
        vstd::set::axiom_set_insert_finite(dt, keyf(v));
        vstd::set::axiom_set_insert_len(dt, keyf(v));
        assert(!dt.contains(keyf(v)));
    } else {
        lemma_empty::<T, K>(keyf);
        assert(as_map(s, keyf) =~= Map::<K, T>::empty());
        broadcast use vstd::set::axiom_set_empty_finite;
        broadcast use vstd::set::axiom_set_empty_len;

        assert(as_map(s, keyf).dom() =~= Set::<K>::empty());
    }
}

/// Removing the entry at index `i` removes its key from the map
/// view.
pub proof fn lemma_remove<T, K>(s: Seq<T>, keyf: spec_fn(T) -> K, i: int)
    requires
        keys_unique(s, keyf),
        0 <= i < s.len(),
    ensures
        keys_unique(s.remove(i), keyf),
        as_map(s.remove(i), keyf) =~= as_map(s, keyf).remove(keyf(s[i])),
{
    let t = s.remove(i);
    let ki = keyf(s[i]);
    s.remove_ensures(i);
    assert forall|a: int, b: int| 0 <= a < b < t.len() implies keyf(t[a]) != keyf(t[b]) by {
        let a2: int = if a < i { a } else { a + 1 };
        let b2: int = if b < i { b } else { b + 1 };
        assert(t[a] == s[a2] && t[b] == s[b2]);
    }
    let m1 = as_map(t, keyf);
    let m2 = as_map(s, keyf).remove(ki);
    assert forall|k: K| m1.dom().contains(k) implies m2.dom().contains(k) && m1[k] == m2[k] by {
        let a = index_of_key(t, keyf, k);
        assert(0 <= a < t.len() && keyf(t[a]) == k);
        let a2: int = if a < i { a } else { a + 1 };
        assert(t[a] == s[a2]);
        if k == ki {
            // two distinct indices of s would share the removed key
            if a2 < i {
                assert(keyf(s[a2]) != keyf(s[i]));
            } else {
                assert(keyf(s[i]) != keyf(s[a2]));
            }
        }
        assert(has_key(s, keyf, k));
        lemma_entry_is_value(s, keyf, a2);
        lemma_entry_is_value(t, keyf, a);
    }
    assert forall|k: K| m2.dom().contains(k) implies m1.dom().contains(k) by {
        let j = index_of_key(s, keyf, k);
        assert(0 <= j < s.len() && keyf(s[j]) == k);
        if j < i {
            assert(keyf(t[j]) == k);
        } else {
            assert(j != i);
            assert(keyf(t[j - 1]) == k);
        }
    }
    assert(m1 =~= m2);
}

/// Overwriting the entry at index `i` with one that carries the same
/// key updates the map view at that key.
pub proof fn lemma_update<T, K>(s: Seq<T>, keyf: spec_fn(T) -> K, i: int, v: T)
    requires
        keys_unique(s, keyf),
        0 <= i < s.len(),
        keyf(v) == keyf(s[i]),
    ensures
        keys_unique(s.update(i, v), keyf),
        as_map(s.update(i, v), keyf) =~= as_map(s, keyf).insert(keyf(v), v),
{
    let t = s.update(i, v);
    let kv = keyf(v);
    assert forall|a: int, b: int| 0 <= a < b < t.len() implies keyf(t[a]) != keyf(t[b]) by {
        assert(keyf(t[a]) == keyf(s[a]) && keyf(t[b]) == keyf(s[b]));
    }
    let m1 = as_map(t, keyf);
    let m2 = as_map(s, keyf).insert(kv, v);
    assert forall|k: K| m1.dom().contains(k) implies m2.dom().contains(k) && m1[k] == m2[k] by {
        let a = index_of_key(t, keyf, k);
        assert(0 <= a < t.len() && keyf(t[a]) == k);
        assert(keyf(s[a]) == k);
        assert(has_key(s, keyf, k));
        lemma_entry_is_value(t, keyf, a);
        if a == i {
            assert(m1[k] == v);
        } else {
            assert(t[a] == s[a]);
            if k == kv {
                if a < i {
                    assert(keyf(s[a]) != keyf(s[i]));
                } else {
                    assert(keyf(s[i]) != keyf(s[a]));
                }
            }
            lemma_entry_is_value(s, keyf, a);
        }
    }
    assert forall|k: K| m2.dom().contains(k) implies m1.dom().contains(k) by {
        if k == kv {
            assert(keyf(t[i]) == k);
        } else {
            let j = index_of_key(s, keyf, k);
            assert(0 <= j < s.len() && keyf(s[j]) == k);
            assert(j != i);
            assert(keyf(t[j]) == k);
        }
    }
    assert(m1 =~= m2);
}

} // verus!

//! A map that is kept in both directions: from keys to values and from
//! values to keys.

use vstd::prelude::*;
use vstd::std_specs::hash::obeys_key_model;

use std::collections::HashMap;
use std::hash::Hash;

verus! {

broadcast use vstd::std_specs::hash::group_hash_axioms;

/// A map from keys to values, with the map from values back to keys.
pub struct BiHashMap<K, V> {
    key_to_val: HashMap<K, V>,
    val_to_key: HashMap<V, K>,
}

impl<K, V> View for BiHashMap<K, V> {
    type V = (Map<K, V>, Map<V, K>);

    closed spec fn view(&self) -> (Map<K, V>, Map<V, K>) {
        (self.key_to_val@, self.val_to_key@)
    }
}

impl<K, V> BiHashMap<K, V> {
    /// An empty map.
    pub fn new() -> (r: BiHashMap<K, V>)
        ensures
            r@.0 == Map::<K, V>::empty(),
            r@.1 == Map::<V, K>::empty(),
    {
        BiHashMap { key_to_val: HashMap::new(), val_to_key: HashMap::new() }
    }

    /// Whether no key is mapped.
    pub fn is_empty(&self) -> (r: bool)
        ensures
            r == self@.0.is_empty(),
    {
        self.key_to_val.is_empty()
    }

    /// The number of keys; for key types that hash and compare as their
    /// values do, the size of the map from keys.
    pub fn len(&self) -> (r: usize)
        ensures
            obeys_key_model::<K>() ==> r == self@.0.len(),
            obeys_key_model::<K>() ==> (r == 0 <==> self@.0.is_empty()),
    {
        let r = self.key_to_val.len();
        proof {
            vstd::set_lib::lemma_set_empty_equivalency_len(self@.0.dom());
            if self@.0.is_empty() {
                assert(self@.0.dom() =~= Set::<K>::empty());
            }
        }
        r
    }
}

impl<K: Copy + Eq + Hash, V: Copy + Eq + Hash> BiHashMap<K, V> {
    /// Maps `key` to `val` and `val` back to `key`, in place of what either
    /// was mapped to; for types that hash and compare as their values do.
    pub fn insert(&mut self, key: K, val: V)
        ensures
            obeys_key_model::<K>() ==> final(self)@.0 == old(self)@.0.insert(key, val),
            obeys_key_model::<V>() ==> final(self)@.1 == old(self)@.1.insert(val, key),
            obeys_key_model::<K>() ==> final(self)@.0.len() == old(self)@.0.len() + (if old(
                self,
            )@.0.dom().contains(key) {
                0int
            } else {
                1int
            }),
    {
        self.key_to_val.insert(key, val);
        self.val_to_key.insert(val, key);
        proof {
            vstd::set::axiom_set_insert_len(old(self)@.0.dom(), key);
            assert(old(self)@.0.insert(key, val).dom() =~= old(self)@.0.dom().insert(key));
        }
    }
}

impl<K: Clone + Eq + Hash, V: Clone + Eq + Hash> BiHashMap<K, V> {
    /// Maps a clone of `key` to a clone of `val`, and `val` back to `key`,
    /// in place of what either was mapped to.
    pub fn insert_cloned(&mut self, key: K, val: V)
        ensures
            obeys_key_model::<K>() ==> exists|k: K, v: V|
                cloned(key, k) && cloned(val, v) && final(self)@.0 == old(self)@.0.insert(k, v),
            obeys_key_model::<V>() ==> final(self)@.1 == old(self)@.1.insert(val, key),
    {
        let k = key.clone();
        let v = val.clone();
        let ghost gk = k;
        let ghost gv = v;
        assert(cloned(key, gk) && cloned(val, gv));
        self.key_to_val.insert(k, v);
        self.val_to_key.insert(val, key);
        assert(obeys_key_model::<K>() ==> self@.0 == old(self)@.0.insert(gk, gv));
    }
}

} // verus!

//! A hash map of hash maps.

use vstd::prelude::*;

use std::collections::HashMap;

verus! {

/// A hash map from keys to hash maps.
pub struct HashSetMap<K, L, V> {
    inner: HashMap<K, HashMap<L, V>>,
}

} // verus!

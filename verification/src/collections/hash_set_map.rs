//! A hash map of hash sets.

use vstd::prelude::*;

use std::collections::{HashMap, HashSet};

verus! {

/// A hash map from keys to hash sets of values.
#[derive(Clone)]
pub struct HashSetMap<K, V> {
    inner: HashMap<K, HashSet<V>>,
}

} // verus!

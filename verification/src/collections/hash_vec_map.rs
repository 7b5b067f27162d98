//! A hash map of vectors.

use vstd::prelude::*;

use std::collections::HashMap;

verus! {

/// A hash map from keys to vectors of values.
pub struct HashVecMap<K, V> {
    inner: HashMap<K, Vec<V>>,
}

} // verus!

//! An ordered map of vectors.

use vstd::prelude::*;

use std::collections::BTreeMap;

verus! {

/// An ordered map from keys to vectors of values.
pub struct BTreeVecMap<K, V> {
    inner: BTreeMap<K, Vec<V>>,
}

} // verus!

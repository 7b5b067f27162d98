//! An ordered map of ordered maps.

use vstd::prelude::*;

use std::collections::BTreeMap;

verus! {

/// An ordered map from keys to ordered maps.
pub struct BTreeSetMap<K, L, V> {
    inner: BTreeMap<K, BTreeMap<L, V>>,
}

} // verus!

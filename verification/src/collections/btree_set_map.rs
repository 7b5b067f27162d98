//! An ordered map of ordered sets.

use vstd::prelude::*;

use std::collections::{BTreeMap, BTreeSet};

verus! {

/// An ordered map from keys to ordered sets of values.
pub struct BTreeSetMap<K, V> {
    inner: BTreeMap<K, BTreeSet<V>>,
}

} // verus!

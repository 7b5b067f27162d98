//! Maps whose values are collections themselves.

pub mod btree_map_map;
pub mod btree_set_map;
pub mod btree_vec_map;
pub mod hash_map_map;
pub mod hash_set_map;
pub mod hash_vec_map;

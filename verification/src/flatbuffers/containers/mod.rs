//! Flat containers.

pub mod flat_set;
pub mod hash_index;

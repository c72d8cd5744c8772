//! Containers laid out in flat arrays, as stored in serialized engine data.

pub mod containers;

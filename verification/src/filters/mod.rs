//! Representations of individual filter rules and their standalone behaviour.

pub mod cosmetic;
pub mod fb_network_builder;
pub mod network;
pub mod network_matchers;

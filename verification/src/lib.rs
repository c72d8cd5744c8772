//! Ad-blocking engine: parsing of network and cosmetic filter rules, request
//! modelling and matching, and the containers that hold compiled rules.

pub mod blocker;
pub mod cosmetic_filter_cache;
pub mod data_format;
pub mod engine;
pub mod filter_lists;
pub mod filters;
pub mod flatbuffers;
pub mod lists;
pub mod match_debug_stats;
pub mod optimizer;
pub mod parser;
pub mod redirect_resources;
pub mod request;
pub mod resources;
pub mod utils;

use vstd::prelude::*;

verus! {

} // verus!

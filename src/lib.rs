//! The core of a role-gated chat backend: room access, reaction validation
//! and aggregation, the decisions of every mutation, search queries, and the
//! in-memory presence registry and broadcast hub.
use vstd::prelude::*;

pub mod access;
pub mod emoji;
pub mod hub;
pub mod model;
pub mod pipeline;
pub mod presence;
pub mod queries;
pub mod reactions;
pub mod search;

verus! {

} // verus!

//! A minimal users service, verified: the handler decisions and response
//! bodies of a small HTTP resource backed by a relational store, together
//! with the string logic of its per-test database harness.

use vstd::prelude::*;

pub mod harness;
pub mod json;
pub mod service;
pub mod user;

verus! {

/// The upper bound on concurrent connections a service pool is built with.
pub const MAX_POOL_CONNECTIONS: u32 = 5;

} // verus!

//! A small profile service library whose core is a per-client request-rate
//! limiter: a fixed-capacity, fixed-window counter map keyed by client
//! identity, together with the middleware decision logic that enforces it,
//! and the plain data shapes of the service's one endpoint.

use vstd::prelude::*;

pub mod api;
pub mod config;
pub mod dtos;
pub mod limiter;
pub mod middleware;
pub mod routes;
pub mod utils;

verus! {

/// The fact string served whenever the upstream fact fetch fails or its body
/// cannot be read; the endpoint degrades to this value instead of erroring.
pub const DEFAULT_CAT_FACT: &'static str = "Cats spend about two thirds of their lives asleep.";

} // verus!

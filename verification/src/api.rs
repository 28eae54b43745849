//! The application context handed to the HTTP layer: the configuration and
//! the shared rate limiter.

use vstd::prelude::*;
use crate::config::GlobalConfig;
use crate::limiter::RateLimiter;

verus! {

/// The state the HTTP layer carries: configuration plus the one limiter
/// instance shared by every request the process serves.
pub struct AppContext {
    pub config: GlobalConfig,
    pub rate_limiter: RateLimiter,
}

} // verus!

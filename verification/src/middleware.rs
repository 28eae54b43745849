//! The middleware decision: given the peer identity the transport supplied
//! and the current time, consult the limiter and say what the HTTP layer
//! must do — forward, reject with "too many requests", or fail closed when
//! no client identity is available.

use vstd::prelude::*;
use crate::limiter::{spec_allowed, spec_step, Decision, RateLimiter};

verus! {

/// What the HTTP layer must do with a request.
#[derive(Clone, Copy, Debug, PartialEq, Eq, Structural)]
pub enum GateOutcome {
    /// Admit the request: hand it to the downstream handler unchanged.
    Forward,
    /// Reject with a "too many requests" status; the downstream handler must
    /// not run.
    TooManyRequests,
    /// No client identity was available: fail closed with a server error
    /// rather than serve the request un-rate-limited.
    MissingClientIdentity,
}

/// Gates one request. The client key is the textual peer address with the
/// port already excluded, so every connection from one host draws on one
/// budget; `now` is the current time in milliseconds. A request without a
/// peer identity is failed closed and leaves the limiter untouched; any
/// other request takes exactly one `spec_step` of the limiter and is
/// forwarded exactly when `spec_allowed` held of the state the call found.
pub fn gate_request(limiter: &mut RateLimiter, peer_ip: Option<&String>, now: u64) -> (o:
    GateOutcome)
    requires
        old(limiter).wf(),
    ensures
        final(limiter).wf(),
        final(limiter).spec_capacity() == old(limiter).spec_capacity(),
        match peer_ip {
            None => o == GateOutcome::MissingClientIdentity && *final(limiter) == *old(limiter),
            Some(ip) => {
                &&& (o == GateOutcome::Forward <==> spec_allowed(
                    old(limiter).counters(),
                    old(limiter).spec_capacity(),
                    ip@,
                    now,
                ))
                &&& (o == GateOutcome::TooManyRequests <==> !spec_allowed(
                    old(limiter).counters(),
                    old(limiter).spec_capacity(),
                    ip@,
                    now,
                ))
                &&& final(limiter).counters() == spec_step(
                    old(limiter).counters(),
                    old(limiter).spec_capacity(),
                    ip@,
                    now,
                )
            },
        },
{
    match peer_ip {
        None => GateOutcome::MissingClientIdentity,
        Some(ip) => {
            match limiter.check_and_record(ip, now) {
                Decision::Allowed => GateOutcome::Forward,
                Decision::Denied => GateOutcome::TooManyRequests,
            }
        },
    }
}

/// The HTTP status the middleware answers with itself: none on `Forward`
/// (the downstream handler's status stands), 429 on a denial, 500 when the
/// request carried no client identity.
pub fn denial_status(o: &GateOutcome) -> (s: Option<u16>)
    ensures
        match o {
            GateOutcome::Forward => s is None,
            GateOutcome::TooManyRequests => s == Some(429u16),
            GateOutcome::MissingClientIdentity => s == Some(500u16),
        },
{
    match o {
        GateOutcome::Forward => None,
        GateOutcome::TooManyRequests => Some(429),
        GateOutcome::MissingClientIdentity => Some(500),
    }
}

} // verus!

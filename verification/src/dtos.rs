//! The data shapes of the service's one endpoint: the static user profile,
//! the upstream fact body, and the enriched response.

use vstd::prelude::*;

verus! {

/// The static profile served by the endpoint.
pub struct UserProfile {
    pub email: String,
    pub name: String,
    pub stack: String,
}

impl UserProfile {
    /// Packs the three configured profile fields into a profile.
    pub fn new(email: String, full_name: String, stack: String) -> (p: Self)
        ensures
            p.email == email,
            p.name == full_name,
            p.stack == stack,
    {
        Self { email, name: full_name, stack }
    }
}

/// The shape of the upstream fact API's body: one `fact` string.
pub struct CatFactResponse {
    pub fact: String,
}

/// The endpoint's response body: a fixed success marker, the profile, a
/// creation timestamp, and the fetched fact.
pub struct ApiResponse {
    pub status: String,
    pub user: UserProfile,
    pub timestamp: String,
    pub fact: String,
}

/// Relies on chrono's `Utc::now` and `DateTime::to_rfc3339_opts`: the current
/// UTC time rendered as an RFC 3339 string with millisecond precision. The
/// result depends on the system clock, so only what holds of every rendering
/// is stated: for the UTC offset with `use_z` set, the string is non-empty
/// and carries the documented `Z` suffix.
#[verifier::external_body]
fn now_rfc3339_millis() -> (r: String)
    ensures
        r@.len() >= 1,
        r@.last() == 'Z',
{
    chrono::Utc::now().to_rfc3339_opts(chrono::SecondsFormat::Millis, true)
}

impl ApiResponse {
    /// Builds the response around the given profile and fact, with the fixed
    /// success status and a timestamp taken from the clock.
    pub fn new(profile_data: UserProfile, fact: String) -> (r: Self)
        ensures
            r.status@ == "success"@,
            r.user == profile_data,
            r.fact == fact,
            r.timestamp@.len() >= 1,
            r.timestamp@.last() == 'Z',
    {
        Self {
            status: "success".to_owned(),
            user: profile_data,
            timestamp: now_rfc3339_millis(),
            fact,
        }
    }
}

} // verus!

//! The computational core of the profile endpoint: assembling the response
//! from the configuration and an already-fetched fact.

use vstd::prelude::*;
use crate::config::GlobalConfig;
use crate::dtos::{ApiResponse, UserProfile};

verus! {

/// Builds the endpoint's response body from the configured profile fields
/// and the fact the fetch produced.
pub fn profile_response(config: &GlobalConfig, fact: String) -> (r: ApiResponse)
    ensures
        r.status@ == "success"@,
        r.user.email == config.email,
        r.user.name == config.full_name,
        r.user.stack == config.stack,
        r.fact == fact,
{
    let profile_data = UserProfile::new(
        config.email.clone(),
        config.full_name.clone(),
        config.stack.clone(),
    );
    ApiResponse::new(profile_data, fact)
}

} // verus!

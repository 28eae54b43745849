//! The fallback rule of the fact fetch: any failure to obtain a fact
//! degrades to the fixed default fact, never to an error.

use vstd::prelude::*;
use crate::DEFAULT_CAT_FACT;

verus! {

/// The fact to serve given what the upstream fetch produced: the fetched
/// fact when there is one, and the default fact on any failure.
pub fn fact_or_default(fetched: Option<String>) -> (fact: String)
    ensures
        match fetched {
            Some(f) => fact == f,
            None => fact@ == DEFAULT_CAT_FACT@,
        },
{
    match fetched {
        Some(f) => f,
        None => DEFAULT_CAT_FACT.to_owned(),
    }
}

} // verus!

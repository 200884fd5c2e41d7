//! Wall-clock access.

use vstd::prelude::*;

verus! {

/// Current time in seconds since the Unix epoch (`SystemTime::now`).
///
/// Trusted, and nothing is stated of the result: it depends on the clock.
/// A clock set before the epoch reads as 0.
#[verifier::external_body]
pub fn now_unix() -> (secs: u64) {
    match std::time::SystemTime::now().duration_since(std::time::UNIX_EPOCH) {
        Ok(d) => d.as_secs(),
        Err(_) => 0,
    }
}

} // verus!

//! The wall clock.
use vstd::prelude::*;

verus! {

/// Relies on `std::time::SystemTime::elapsed` since the Unix epoch: whole seconds
/// now, or 0 where the clock stands before the epoch.
#[verifier::external_body]
pub(crate) fn unix_now() -> (r: u64) {
    match std::time::UNIX_EPOCH.elapsed() {
        Ok(d) => d.as_secs(),
        Err(_) => 0,
    }
}

} // verus!

//! The system clock, read as whole seconds.

use vstd::prelude::*;

verus! {

/// Reads `std::time::SystemTime::now` and converts it to seconds since the
/// Unix epoch, zero where the clock stands before the epoch. Nothing is
/// claimed of the value: a clock may return anything.
#[verifier::external_body]
pub(crate) fn unix_time_now() -> (seconds: u64) {
    std::time::SystemTime::now()
        .duration_since(std::time::UNIX_EPOCH)
        .unwrap_or(std::time::Duration::from_secs(0))
        .as_secs()
}

} // verus!

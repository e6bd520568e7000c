//! Wall-clock timing for the statistics envelope.  Elapsed time depends on
//! the machine and the moment, so nothing is promised of these values.

use vstd::prelude::*;

verus! {

#[verifier::external_type_specification]
#[verifier::external_body]
pub struct ExInstant(std::time::Instant);

/// Relies on `std::time::Instant::now`: a point in time.  Nothing is
/// promised of its value.
#[verifier::external_body]
pub fn instant_now() -> (t: std::time::Instant) {
    std::time::Instant::now()
}

/// Relies on `std::time::Instant::elapsed`: the wall-clock time since
/// `start`, converted to whole milliseconds (truncated into `u64`).
/// Nothing is promised of the value.
#[verifier::external_body]
pub fn millis_since(start: &std::time::Instant) -> (ms: u64) {
    start.elapsed().as_millis() as u64
}

} // verus!

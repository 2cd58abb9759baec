//! Reading the monotonic clock, to report how long a computation took.
use vstd::prelude::*;

verus! {

/// A point in time of the monotonic clock, carried through unopened.
#[verifier::external_type_specification]
#[verifier::external_body]
pub struct ExInstant(std::time::Instant);

/// Relies on `Instant::now`: reads the monotonic clock. Nothing is promised of the value.
#[verifier::external_body]
pub(crate) fn clock_start() -> (r: std::time::Instant) {
    std::time::Instant::now()
}

/// Relies on `Instant::elapsed`: the time passed since `start`. Nothing is promised of it.
#[verifier::external_body]
pub(crate) fn clock_elapsed(start: &std::time::Instant) -> (r: std::time::Duration) {
    start.elapsed()
}

} // verus!

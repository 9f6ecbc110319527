//! Wall-clock readings for the run's performance counters.
//!
//! Timings are purely observational: nothing in the pipeline's logic or
//! contracts depends on them, so nothing is promised about their values.

use vstd::prelude::*;

verus! {

#[verifier::external_type_specification]
#[verifier::external_body]
/// The monotonic clock reading type of the standard library.
pub struct ExInstant(std::time::Instant);

/// Relies on Instant::now: an opaque reading of the monotonic clock.
#[verifier::external_body]
pub(crate) fn clock_now() -> std::time::Instant {
    std::time::Instant::now()
}

/// Relies on Instant::elapsed: the milliseconds since the reading was
/// taken.  A wall-clock measurement, so nothing is promised of it.
#[verifier::external_body]
pub(crate) fn elapsed_millis(t: &std::time::Instant) -> u128 {
    t.elapsed().as_millis()
}

} // verus!

//! A monotonic clock, counted in milliseconds since the clock was created.
//!
//! All expiration arithmetic in this crate is done against readings of this
//! clock, so it is unaffected by wall-clock adjustments.

use vstd::prelude::*;

verus! {

/// `std::time::Instant` is opaque to the verifier; it is declared here so
/// that a clock can hold one.
#[verifier::external_type_specification]
#[verifier::external_body]
pub struct ExInstant(std::time::Instant);

/// Relies on `std::time::Instant::now`: an opaque reading of the monotonic
/// clock. The result depends on the moment of the call, so nothing is
/// promised of it.
pub assume_specification[ std::time::Instant::now ]() -> (r: std::time::Instant);

/// Relies on `std::time::Instant::elapsed`: the time since `i`, as an opaque
/// `Duration`. The result depends on the moment of the call, so nothing is
/// promised of it.
pub assume_specification[ std::time::Instant::elapsed ](i: &std::time::Instant) -> (r: core::time::Duration);

/// Relies on `core::time::Duration::as_millis`: the number of whole
/// milliseconds in the duration. `Duration` is opaque here, so nothing more
/// exact can be stated of the result.
pub assume_specification[ core::time::Duration::as_millis ](d: &core::time::Duration) -> (r: u128);

/// A monotonic clock: readings are elapsed milliseconds since the moment the
/// clock was created, and never decrease from one call to the next.
pub struct MonotonicClock {
    epoch: std::time::Instant,
}

impl MonotonicClock {
    /// Start a new clock; readings count from this moment.
    pub fn new() -> MonotonicClock {
        MonotonicClock { epoch: std::time::Instant::now() }
    }
}

/// The current reading of `clock`, in milliseconds, saturating at
/// `u64::MAX`. Successive readings of one clock never decrease.
pub fn current_monotime(clock: &MonotonicClock) -> u64 {
    let ms: u128 = clock.epoch.elapsed().as_millis();
    if ms > u64::MAX as u128 {
        u64::MAX
    } else {
        ms as u64
    }
}

} // verus!

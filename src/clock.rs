//! The monotonic clock that trials are timed with.
use std::time::{Duration, Instant};
use vstd::prelude::*;

verus! {

#[verifier::external_type_specification]
#[verifier::external_body]
pub struct ExInstant(std::time::Instant);

/// Relies on `Instant::now`: a reading of the monotonic clock. Nothing is
/// promised of the value, which depends on when it is taken.
#[verifier::external_body]
pub(crate) fn now() -> (r: Instant) {
    Instant::now()
}

/// Relies on `Instant::elapsed`: the time since `start` on the monotonic clock.
#[verifier::external_body]
pub(crate) fn elapsed(start: &Instant) -> (r: Duration) {
    start.elapsed()
}

/// Relies on `Duration::as_nanos`: the whole number of nanoseconds in `d`.
#[verifier::external_body]
pub(crate) fn as_nanos(d: &Duration) -> (r: u128) {
    d.as_nanos()
}

} // verus!

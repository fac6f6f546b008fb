//! The monotonic clock of std, and lengths of time as whole nanoseconds.

use std::time::Duration;
use std::time::Instant;
use vstd::prelude::*;

verus! {

/// A reading of std's monotonic clock.
#[verifier::external_type_specification]
#[verifier::external_body]
pub struct ExInstant(Instant);

/// Length of a `Duration` in whole nanoseconds.
pub uninterp spec fn nanos_of(d: Duration) -> nat;

/// `Instant::now`: the clock's reading, of which nothing is known beforehand.
#[verifier::external_body]
pub(crate) fn clock_now() -> Instant {
    Instant::now()
}

/// `Instant::elapsed`: the time since `start`, of which nothing is known
/// beforehand.
#[verifier::external_body]
pub(crate) fn clock_elapsed(start: &Instant) -> Duration {
    start.elapsed()
}

/// `Duration::as_nanos`: the length in whole nanoseconds.
#[verifier::external_body]
pub(crate) fn duration_nanos(d: &Duration) -> (n: u128)
    ensures
        n == nanos_of(*d),
{
    d.as_nanos()
}

} // verus!

//! The monotonic clock that stamps frames which come without a timestamp.

use std::time::{Duration, Instant};
use vstd::prelude::*;

verus! {

#[verifier::external_type_specification]
#[verifier::external_body]
pub struct ExInstant(Instant);

/// What `Duration::as_nanos` returns for a duration.
pub uninterp spec fn duration_nanos(d: Duration) -> u128;

/// Calls `Instant::now`. Nothing is claimed of the reading.
#[verifier::external_body]
pub(crate) fn instant_now() -> (t: Instant) {
    Instant::now()
}

/// Calls `Instant::elapsed`. Nothing is claimed of the reading.
#[verifier::external_body]
pub(crate) fn instant_elapsed(t: &Instant) -> (d: Duration) {
    t.elapsed()
}

/// Calls `Duration::as_nanos`: the whole nanoseconds of `d`.
#[verifier::external_body]
pub(crate) fn duration_as_nanos(d: &Duration) -> (n: u128)
    ensures
        n == duration_nanos(*d),
{
    d.as_nanos()
}

} // verus!

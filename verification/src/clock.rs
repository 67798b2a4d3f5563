use vstd::prelude::*;
use std::time::Instant;

verus! {

#[verifier::external_type_specification]
#[verifier::external_body]
pub struct ExInstant(Instant);

/// `Instant::now`: a reading of the monotonic clock. Nothing is stated of it:
/// it depends on when the call is made.
#[verifier::external_body]
pub(crate) fn current_instant() -> Instant {
    Instant::now()
}

/// `Instant::duration_since`, in nanoseconds: the time from `earlier` to
/// `later` (zero when `later` is not after `earlier`). Nothing is stated of
/// the value: the instants are readings of the clock, opaque here.
#[verifier::external_body]
pub(crate) fn nanos_between(earlier: &Instant, later: &Instant) -> u128 {
    later.duration_since(*earlier).as_nanos()
}

} // verus!

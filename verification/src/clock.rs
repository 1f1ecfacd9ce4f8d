//! The monotonic clock against which entries expire.

use tokio::time::Instant;
use vstd::prelude::*;

verus! {

/// `tokio::time::Instant`, a point on the runtime's monotonic clock. Nothing is
/// known of its contents; it is only carried from [`start`] to [`elapsed_nanos`].
#[verifier::external_type_specification]
#[verifier::external_body]
pub struct ExInstant(tokio::time::Instant);

/// Calls `tokio::time::Instant::now`. The reading depends on when the call is
/// made, so nothing is claimed of it.
#[verifier::external_body]
pub(crate) fn start() -> Instant {
    Instant::now()
}

/// Calls `tokio::time::Instant::elapsed` and hands back the duration in whole
/// nanoseconds (`Duration::as_nanos`). The reading depends on when the call is
/// made, so nothing is claimed of it.
#[verifier::external_body]
pub(crate) fn elapsed_nanos(since: &Instant) -> u128 {
    since.elapsed().as_nanos()
}

/// The tick that stands for a reading of `nanos` nanoseconds: the reading
/// itself while it fits in a `u64`, and `u64::MAX` from then on.
pub open spec fn ticks_of(nanos: u128) -> u64 {
    if nanos > u64::MAX {
        u64::MAX
    } else {
        nanos as u64
    }
}

/// Turns a reading of the clock into a tick.
pub fn ticks_from_nanos(nanos: u128) -> (ticks: u64)
    ensures
        ticks == ticks_of(nanos),
{
    if nanos > u64::MAX as u128 {
        u64::MAX
    } else {
        nanos as u64
    }
}

} // verus!

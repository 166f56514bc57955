//! `std::time::Duration` seen through its length in nanoseconds.

use std::time::Duration;

use vstd::prelude::*;

verus! {

/// The length of `d` in nanoseconds, as `Duration::as_nanos` reports it.
pub uninterp spec fn duration_nanos(d: Duration) -> u128;

/// `Duration::as_nanos`: the whole length in nanoseconds.
#[verifier::external_body]
pub(crate) fn nanos_of(d: Duration) -> (r: u128)
    ensures
        r == duration_nanos(d),
{
    d.as_nanos()
}

/// `Duration::from_millis`: a duration of `millis` milliseconds.
#[verifier::external_body]
pub(crate) fn duration_from_millis(millis: u64) -> (d: Duration)
    ensures
        duration_nanos(d) == millis as int * 1_000_000,
{
    Duration::from_millis(millis)
}

/// `Duration::saturating_sub`: `a - b`, or zero where `b` is the longer.
#[verifier::external_body]
pub(crate) fn duration_saturating_sub(a: Duration, b: Duration) -> (d: Duration)
    ensures
        duration_nanos(d) == if duration_nanos(a) >= duration_nanos(b) {
            duration_nanos(a) - duration_nanos(b)
        } else {
            0
        },
{
    a.saturating_sub(b)
}

} // verus!

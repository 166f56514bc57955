//! Monotonic sequence numbers for the server-side agent event log.
//!
//! Clients store the last observed seq and ask for catch-up with it after a
//! reconnect. A disconnect neither rewinds nor drops the log.

use vstd::prelude::*;

verus! {

/// Append-only log position. Never wraps: saturates at `u64::MAX`.
#[derive(Clone, Copy, Debug, Default, PartialEq, Eq, PartialOrd, Ord, Hash, Structural)]
pub struct EventSeq(pub u64);

/// `a + b`, clamped to `u64::MAX`.
pub open spec fn saturating_sum(a: u64, b: u64) -> u64 {
    if a + b > u64::MAX { u64::MAX } else { (a + b) as u64 }
}

impl EventSeq {
    /// The position before the first event: a client that has seen nothing.
    pub fn zero() -> (r: EventSeq)
        ensures
            r.0 == 0,
    {
        EventSeq(0)
    }

    /// The position after `self`; stays at `u64::MAX` once there.
    pub fn next(self) -> (r: EventSeq)
        ensures
            r.0 == saturating_sum(self.0, 1),
    {
        EventSeq(self.0.saturating_add(1))
    }

    /// `self` advanced by `delta` positions, saturating at `u64::MAX`.
    pub fn saturating_add(self, delta: u64) -> (r: EventSeq)
        ensures
            r.0 == saturating_sum(self.0, delta),
    {
        EventSeq(self.0.saturating_add(delta))
    }

    /// The number as text, in decimal.
    pub fn to_string(&self) -> (r: String)
        ensures
            r@ == crate::text::decimal_digits(self.0 as nat),
    {
        crate::text::u64_to_decimal(self.0)
    }
}

/// Advancing never moves a position backwards, and it moves strictly
/// forwards until the position is `u64::MAX`.
pub proof fn lemma_next_is_monotonic(seq: EventSeq)
    ensures
        seq.0 <= saturating_sum(seq.0, 1),
        seq.0 < u64::MAX ==> seq.0 < saturating_sum(seq.0, 1),
        seq.0 == u64::MAX ==> saturating_sum(seq.0, 1) == seq.0,
{
}

} // verus!

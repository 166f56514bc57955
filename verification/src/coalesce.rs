//! Coalesce token deltas so a slow link is not one Envelope per model token.

use std::time::Duration;

use vstd::prelude::*;

use crate::time::{duration_from_millis, duration_nanos, nanos_of};

verus! {

/// When to flush streamed agent text toward a connected client.
#[derive(Clone, Copy, Debug, PartialEq, Eq)]
pub struct CoalesceConfig {
    pub max_interval: Duration,
    pub max_characters: usize,
}

/// Whether buffered text is due: there is some, and it has waited long
/// enough or grown long enough.
pub open spec fn flush_due(
    max_interval_nanos: u128,
    max_characters: usize,
    waited_nanos: u128,
    buffered_characters: usize,
) -> bool {
    buffered_characters > 0 && (waited_nanos >= max_interval_nanos || buffered_characters
        >= max_characters)
}

impl CoalesceConfig {
    /// The slow-link setting: flush after 50 ms or 64 characters.
    pub fn slow_link() -> (config: CoalesceConfig)
        ensures
            duration_nanos(config.max_interval) == 50_000_000,
            config.max_characters == 64,
    {
        CoalesceConfig { max_interval: duration_from_millis(50), max_characters: 64 }
    }

    pub fn should_flush(self, waited: Duration, buffered_characters: usize) -> (r: bool)
        ensures
            r == flush_due(
                duration_nanos(self.max_interval),
                self.max_characters,
                duration_nanos(waited),
                buffered_characters,
            ),
    {
        buffered_characters > 0 && (nanos_of(waited) >= nanos_of(self.max_interval)
            || buffered_characters >= self.max_characters)
    }
}

impl Default for CoalesceConfig {
    fn default() -> (config: CoalesceConfig)
        ensures
            duration_nanos(config.max_interval) == 50_000_000,
            config.max_characters == 64,
    {
        CoalesceConfig::slow_link()
    }
}

/// Nothing buffered is never flushed, and a full buffer is flushed at once.
pub proof fn lemma_flush_thresholds(config: CoalesceConfig, waited: Duration, n: usize)
    ensures
        n == 0 ==> !flush_due(duration_nanos(config.max_interval), config.max_characters, duration_nanos(waited), n),
        n > 0 && n >= config.max_characters ==> flush_due(duration_nanos(config.max_interval), config.max_characters, duration_nanos(waited), n),
{
}

} // verus!

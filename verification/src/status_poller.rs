//! Settings of the periodic status polling of panes.
use vstd::prelude::*;

verus! {

/// How often panes are polled and how status changes are debounced.
#[derive(Debug, Clone, Copy, PartialEq, Eq, Structural)]
pub struct PollerConfig {
    /// Milliseconds between polls.
    pub interval_ms: u64,
    /// Observations needed before a status change is taken.
    pub debounce_threshold: u8,
    /// Smallest time between updates of one pane, in milliseconds.
    pub min_update_interval_ms: u64,
}

impl PollerConfig {
    /// Every 500 ms, threshold 2, at most one update per pane every 100 ms.
    pub fn new() -> (r: Self)
        ensures
            r == (PollerConfig { interval_ms: 500, debounce_threshold: 2, min_update_interval_ms: 100 }),
    {
        PollerConfig { interval_ms: 500, debounce_threshold: 2, min_update_interval_ms: 100 }
    }

    /// The same settings with another polling interval.
    pub fn with_interval(self, ms: u64) -> (r: Self)
        ensures
            r == (PollerConfig { interval_ms: ms, ..self }),
    {
        PollerConfig { interval_ms: ms, ..self }
    }

    /// The same settings with another debounce threshold.
    pub fn with_debounce(self, threshold: u8) -> (r: Self)
        ensures
            r == (PollerConfig { debounce_threshold: threshold, ..self }),
    {
        PollerConfig { debounce_threshold: threshold, ..self }
    }
}

impl Default for PollerConfig {
    fn default() -> (r: Self)
        ensures
            r == (PollerConfig { interval_ms: 500, debounce_threshold: 2, min_update_interval_ms: 100 }),
    {
        PollerConfig::new()
    }
}

} // verus!

//! The schedule on which hotspot energies decay.

use vstd::prelude::*;
use std::time::Duration;

verus! {

/// How often energies decay: every hour.
pub const DECAY_INTERVAL_SECS: u64 = 3600;

/// Runs a task once every `tick_interval`.
#[derive(Debug)]
pub struct DecayScheduler {
    pub tick_interval: Duration,
}

impl DecayScheduler {
    /// A scheduler that ticks every `tick_interval`.
    pub fn new(tick_interval: Duration) -> (r: Self)
        ensures
            r.tick_interval == tick_interval,
    {
        Self { tick_interval }
    }
}

} // verus!

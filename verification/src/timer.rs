//! The tick scheduler: a repeating countdown that gates the discrete step.
//!
//! Elapsed real time accumulates every frame; once it reaches the interval
//! the timer fires exactly one step and keeps the remainder, so drift does
//! not build up across frames. The interval can be changed at any time
//! without discarding the progress already accumulated.

use vstd::prelude::*;

verus! {

/// Milliseconds between discrete steps when nothing retunes the timer.
pub const DEFAULT_MOVEMENT_INTERVAL_MS: u32 = 250;

/// The repeating movement timer, in whole milliseconds.
#[derive(Clone, Copy, Debug, PartialEq, Eq, Structural)]
pub struct MovementTimer {
    /// Milliseconds between fires. An interval of zero fires every frame.
    pub interval_ms: u32,
    /// Milliseconds accumulated since the last fire.
    pub elapsed_ms: u32,
}

/// Whether a timer with this interval and accumulated time fires once a
/// further `delta_ms` milliseconds have passed.
pub open spec fn tick_fires(t: MovementTimer, delta_ms: u32) -> bool {
    t.interval_ms == 0 || t.elapsed_ms + delta_ms >= t.interval_ms
}

/// The accumulated time left over after `delta_ms` more milliseconds: the
/// sum modulo the interval, so a fire carries its remainder into the next
/// countdown instead of discarding it.
pub open spec fn tick_elapsed(t: MovementTimer, delta_ms: u32) -> int {
    if t.interval_ms == 0 {
        0
    } else {
        (t.elapsed_ms + delta_ms) % (t.interval_ms as int)
    }
}

impl MovementTimer {
    /// A fresh timer with nothing accumulated.
    pub fn new(interval_ms: u32) -> (t: MovementTimer)
        ensures
            t.interval_ms == interval_ms,
            t.elapsed_ms == 0,
    {
        MovementTimer { interval_ms, elapsed_ms: 0 }
    }

    /// Accumulates `delta_ms` milliseconds of real time and reports whether
    /// the discrete step fires this frame. At most one fire per call: even a
    /// delta spanning several intervals reports a single fire and folds the
    /// excess into the remainder.
    pub fn tick(&mut self, delta_ms: u32) -> (fired: bool)
        ensures
            final(self).interval_ms == old(self).interval_ms,
            fired == tick_fires(*old(self), delta_ms),
            final(self).elapsed_ms == tick_elapsed(*old(self), delta_ms),
    {
        if self.interval_ms == 0 {
            self.elapsed_ms = 0;
            return true;
        }
        let sum: u64 = self.elapsed_ms as u64 + delta_ms as u64;
        if sum >= self.interval_ms as u64 {
            self.elapsed_ms = (sum % self.interval_ms as u64) as u32;
            true
        } else {
            proof {
                vstd::arithmetic::div_mod::lemma_small_mod(sum as nat, self.interval_ms as nat);
            }
            self.elapsed_ms = sum as u32;
            false
        }
    }

    /// Retunes the interval while keeping the accumulated progress, so a
    /// live adjustment neither restarts the countdown nor fires a step by
    /// itself.
    pub fn set_interval(&mut self, interval_ms: u32)
        ensures
            final(self).interval_ms == interval_ms,
            final(self).elapsed_ms == old(self).elapsed_ms,
    {
        self.interval_ms = interval_ms;
    }
}

} // verus!

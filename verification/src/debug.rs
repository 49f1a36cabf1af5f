//! The debug tuning surface: clamped live adjustments to the tick interval
//! and the interpolation rate.
//!
//! Both knobs may be turned at any moment of a run. A new interval keeps
//! the countdown's accumulated progress, so retuning neither restarts the
//! timer nor fires a step by itself, and both values are clamped to the
//! range the tuning overlay offers.

use vstd::prelude::*;

use crate::interp::LerpRate;
use crate::timer::MovementTimer;

verus! {

/// The largest tick interval the tuning surface accepts, in milliseconds.
pub const MAX_STEP_DURATION_MS: u32 = 1000;

/// The largest interpolation rate the tuning surface accepts.
pub const MAX_LERP_RATE: u32 = 1000;

/// The live tuning surface over the two adjustable parameters.
pub struct DebugPlugin;

impl DebugPlugin {
    /// Retunes the tick interval, clamped to the accepted range, keeping
    /// the countdown's accumulated progress.
    pub fn set_step_duration(timer: &mut MovementTimer, ms: u64)
        ensures
            final(timer).interval_ms == if ms > MAX_STEP_DURATION_MS {
                MAX_STEP_DURATION_MS as int
            } else {
                ms as int
            },
            final(timer).elapsed_ms == old(timer).elapsed_ms,
    {
        let clamped: u32 = if ms > MAX_STEP_DURATION_MS as u64 {
            MAX_STEP_DURATION_MS
        } else {
            ms as u32
        };
        timer.set_interval(clamped);
    }

    /// Retunes the interpolation rate, clamped to the accepted range.
    pub fn set_lerp_rate(rate: &mut LerpRate, value: u32)
        ensures
            final(rate).rate == if value > MAX_LERP_RATE {
                MAX_LERP_RATE as int
            } else {
                value as int
            },
    {
        rate.rate = if value > MAX_LERP_RATE {
            MAX_LERP_RATE
        } else {
            value
        };
    }
}

} // verus!

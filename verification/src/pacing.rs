//! Frame pacing: the redraw cadence derived from the audio buffer period.
//!
//! The pacer posts a bare redraw request at this interval, independent of
//! the audio callback and of the render consumer. It carries no payload;
//! peaks keep accumulating between ticks, so a dropped tick only coarsens
//! reporting, it never loses audio information.

use vstd::prelude::*;

verus! {

/// The floor on the redraw interval, in milliseconds: the pacer never
/// fires more often than this, whatever the audio cycle size.
pub const MIN_INTERVAL_MS: u64 = 50;

/// The interval owed for one audio configuration: one audio cycle's
/// duration in milliseconds, floored at `MIN_INTERVAL_MS`.
pub open spec fn pacing_interval_spec(buffer_frames: int, sample_rate: int) -> int {
    let cycle_ms = 1000 * buffer_frames / sample_rate;
    if cycle_ms < MIN_INTERVAL_MS {
        MIN_INTERVAL_MS as int
    } else {
        cycle_ms
    }
}

/// Milliseconds between pacer ticks: the audio cycle period
/// (`1000 * buffer_frames / sample_rate`), but never under
/// `MIN_INTERVAL_MS`, so tiny audio buffers cannot overload the renderer.
pub fn pacing_interval_ms(buffer_frames: u32, sample_rate: u32) -> (r: u64)
    requires
        sample_rate > 0,
    ensures
        r == pacing_interval_spec(buffer_frames as int, sample_rate as int),
{
    let cycle_ms: u64 = 1000u64 * buffer_frames as u64 / sample_rate as u64;
    if cycle_ms < MIN_INTERVAL_MS {
        MIN_INTERVAL_MS
    } else {
        cycle_ms
    }
}

} // verus!

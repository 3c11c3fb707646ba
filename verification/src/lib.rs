//! Peak-hold VU metering: fixed-point level interpolation, a peak-hold
//! buffer with max-combine accumulation and reset-on-drain, a deterministic
//! level-to-bar-geometry mapping, redundant-redraw suppression, frame
//! pacing, and parsing of channel-routing directives.

pub mod color;
pub mod directive;
pub mod geometry;
pub mod interp;
pub mod pacing;
pub mod peak;
pub mod redraw;

//! A verified plasma-effect renderer: a fixed-point trigonometric field
//! generator that maps pixel position and frame time to a palette index, a
//! cyclic RGB565 color ramp, a per-frame render entry point that validates
//! the target buffer, and per-frame timing statistics with windowed
//! aggregation.

pub mod android_bitmap;
pub mod frame_stats;
pub mod plasma;
pub mod render;

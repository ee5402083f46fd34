//! Integer core of a terminal spectrum visualiser.
//!
//! The library holds the decisions of the analysis pipeline: the sliding
//! window over interleaved samples, the mapping of a magnitude spectrum onto
//! log-spaced bands, the per-band exponential smoothing, the bar lengths of
//! the chart and the pacing state machine that drives playback.
//!
//! Every quantity is an integer with a fixed unit:
//! - a sample is a signed fixed-point amplitude (the caller picks the scale);
//! - a magnitude is an unsigned fixed-point value (again the caller's scale);
//! - a level is in hundredths of a decibel (`-10000` is -100 dB);
//! - a frequency is in millihertz.

pub mod arith;
pub mod bands;
pub mod chart;
pub mod pacing;
pub mod smoothing;
pub mod spectrum;
pub mod window;

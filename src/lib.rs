//! Core of a ten-band parametric equalizer: filter response kinds, per-band
//! defaults, the biquad section bookkeeping and the band cascade, and the
//! overlapping-window schedule of the spectrum analyzer.
//!
//! The sample arithmetic itself (coefficient design, the biquad recurrence,
//! the Hann window and the FFT) works on floating point and is supplied by the
//! caller; everything here is generic over the sample type.

pub mod analyzer;
pub mod bank;
pub mod filter;
pub mod kind;

pub use analyzer::{Completed, OverlapWindows};
pub use bank::FilterBank;
pub use filter::{Coefficients, Filter, FilterState};
pub use kind::FilterKind;

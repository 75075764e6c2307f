//! A second-order recursive (biquad) audio filter with a low-pass and a
//! high-pass response that can be switched while the filter runs.
//!
//! The filter is generic over its sample type and is told how to turn a
//! frequency into a phasor; everything else, from the coefficient formulas to
//! the difference equation and the bookkeeping of modes, is done here.
pub mod coefficients;
pub mod engine;
pub mod filter;
pub mod sample;

pub use coefficients::{
    band_pass_coefficients, high_pass_coefficients, low_pass_coefficients, normalize,
    BiquadCoefficients, Phasor, Section,
};
pub use engine::{BiquadFilter, History};
pub use filter::{Filter, FilterMode, FilterState};
pub use sample::Sample;

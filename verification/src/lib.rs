//! A polyphonic wavetable synthesizer core in 32.32 fixed-point arithmetic.
//!
//! Every quantity that a floating-point engine would hold as a real number
//! (frequencies, amplitudes, times) is an integer count of 2^-32 units, so the
//! whole signal path is exact integer arithmetic with stated rounding.

pub mod types;
pub mod adsr;
pub mod temperament;
pub mod presets;
pub mod counter;
pub mod sine;
pub mod wavetable;
pub mod midi;
pub mod voice;
pub mod oscillator;
pub mod audio;

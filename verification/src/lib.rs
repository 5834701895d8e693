//! Verified fixed-point core of an AM-signal demodulator.
//!
//! Sample amplitudes, filter coefficients and spectral values are held as
//! `i64` mantissas in Q32.32 fixed point (`fixed::FRAC_ONE` is the mantissa
//! of 1.0); frequencies are held as exact integer millihertz. Every public
//! operation carries a contract that pins its result down to the exact
//! rounded integer arithmetic it performs.

pub mod bins;
pub mod carrier;
pub mod fixed;
pub mod ideal_filter;
pub mod iir;
pub mod shifter;
pub mod spectrum;

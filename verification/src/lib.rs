//! The decision core of a small acoustic analyzer, which estimates the
//! loudness and the dominant frequency of a mono sample buffer.
//!
//! The core screens requests, sizes and lays out the buffer for a Fourier
//! transform, orders spectral magnitudes and picks the dominant bin.
//! Single-precision numbers cross the interface as their IEEE 754 bit
//! patterns, so every rule is stated and proved over integers. The arithmetic
//! on the numbers themselves (the transform, the moduli, the logarithm) is the
//! caller's.

pub mod binary32;
pub mod error;
pub mod request;
pub mod spectrum;

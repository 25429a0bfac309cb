//! Scalar and vector mathematics utilities.
//!
//! This crate holds the integer core of the library: factorials and the
//! gamma function over `u64`, their element-wise liftings over slices,
//! decimal-digit formatting and parsing, the clock-seeded number
//! generators, and the size cap shared by the sequence generators.

mod clock;
mod decimal;
mod factorial;
mod generator;
mod parse;
mod random;

pub mod math;

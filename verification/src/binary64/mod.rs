//! IEEE 754 binary64 arithmetic on bit patterns.
//!
//! A number is a `u64`. Its model is what the pattern stands for: a sign and
//! a whole count of units of 2^-1074, or an infinity, or a NaN. Each
//! operation is specified by the exact result on those counts, rounded to
//! the nearest number that the format holds, ties to the even significand.
//!
//! - `format`: the fields of a pattern and its value.
//! - `rounding`: the rounded value of an exact one, and the one function
//!   that computes it.
//! - `sum`, `multiply`, `divide`, `remainder`, `order`: the operations.
//! - `accuracy`, `monotone`, `tolerance`: what follows for the error of a
//!   result and for the order of results.
//! - `power`: powers of two and bit lengths.

pub mod accuracy;
pub mod divide;
pub mod format;
pub mod monotone;
pub mod multiply;
pub mod order;
pub mod power;
pub mod remainder;
pub mod rounding;
pub mod sum;
pub mod tolerance;

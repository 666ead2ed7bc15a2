//! Physical quantities as distinct types over binary64 magnitudes.
//!
//! An angle, a length, an area and a volume are values of different types,
//! so that meters are not added to miles, nor a length taken for an area. A
//! quantity holds one magnitude in the unit of its type. It is converted to
//! another unit of its dimension only when asked, and multiplied or divided
//! across dimensions only where the result has a dimension: a length by a
//! length is an area, an area by a length a volume.
//!
//! A magnitude is an IEEE 754 binary64 number carried by its bit pattern, so
//! that every operation is integer arithmetic whose result is stated, and
//! proved, against the exact mathematical value it rounds. Nothing is
//! checked and nothing fails: infinities and NaNs come out as the format
//! has them.
//!
//! - [`scalar`] holds the raw scalar of every quantity.
//! - [`angle`], [`length`], [`area`] and [`volume`] hold the quantities.
//! - [`binary64`] holds the arithmetic on bit patterns.
//! - [`laws`] holds what is proved of conversions, of the links between
//!   dimensions and of the order, for all values.

use vstd::prelude::*;

pub mod angle;
pub mod area;
pub mod binary64;
pub mod laws;
pub mod length;
pub mod prelude;
pub mod scalar;
pub mod volume;

use crate::scalar::Scalar;

verus! {

/// What every quantity is: a copyable value made from a raw scalar, which it
/// gives back.
pub trait Unit: Copy + From<Scalar> {
    /// The raw scalar: the magnitude in the unit of the type.
    spec fn raw(self) -> Scalar;

    fn value(self) -> (r: Scalar)
        ensures
            r == self.raw(),
    ;
}

} // verus!

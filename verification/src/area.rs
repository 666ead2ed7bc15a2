//! Areas in square meters, and what links them to lengths.

use vstd::prelude::*;
use std::cmp::Ordering;
use std::ops::{
    Add, AddAssign, Div, DivAssign, Mul, MulAssign, Rem, RemAssign, Sub, SubAssign,
};
use crate::Unit;
use crate::scalar::Scalar;
use crate::length::Meters;
use crate::binary64::divide::{divide, quotient};
use crate::binary64::multiply::{multiply, product};
use crate::binary64::order::{equal, ordering, is_equal, compare};
use crate::binary64::remainder::{modulo, remainder};
use crate::binary64::sum::{plus, minus, sum, difference};

verus! {

/// An area.
pub trait Area: Unit + Into<SquareMeters> {
    /// This area in square meters.
    spec fn in_square_meters(self) -> SquareMeters;

    fn square_meters(self) -> (r: SquareMeters)
        ensures
            r == self.in_square_meters(),
    ;
}

/// An area in square meters.
#[derive(Clone, Copy, Debug)]
pub struct SquareMeters(pub Scalar);

impl View for SquareMeters {
    type V = u64;

    /// The bit pattern of the raw scalar.
    open spec fn view(&self) -> u64 {
        self.0.bits
    }
}

impl SquareMeters {
    /// An area of the given magnitude.
    pub fn new(value: Scalar) -> (r: SquareMeters)
        ensures
            r == SquareMeters(value),
    {
        SquareMeters(value)
    }
}

impl vstd::std_specs::convert::FromSpecImpl<Scalar> for SquareMeters {
    open spec fn obeys_from_spec() -> bool {
        true
    }

    open spec fn from_spec(value: Scalar) -> SquareMeters {
        SquareMeters(value)
    }
}

impl From<Scalar> for SquareMeters {
    fn from(value: Scalar) -> (r: SquareMeters) {
        SquareMeters(value)
    }
}

impl AsRef<Scalar> for SquareMeters {
    fn as_ref(&self) -> (r: &Scalar)
        ensures
            *r == self.0,
    {
        &self.0
    }
}

impl Unit for SquareMeters {
    open spec fn raw(self) -> Scalar {
        self.0
    }

    fn value(self) -> (r: Scalar) {
        self.0
    }
}

impl vstd::std_specs::cmp::PartialEqSpecImpl for SquareMeters {
    open spec fn obeys_eq_spec() -> bool {
        true
    }

    /// Equal magnitudes: the two zeros are equal, a NaN equals nothing.
    open spec fn eq_spec(&self, other: &SquareMeters) -> bool {
        equal(self@, other@)
    }
}

impl PartialEq for SquareMeters {
    fn eq(&self, other: &SquareMeters) -> (r: bool) {
        is_equal(self.0.bits, other.0.bits)
    }
}

impl vstd::std_specs::cmp::PartialOrdSpecImpl for SquareMeters {
    open spec fn obeys_partial_cmp_spec() -> bool {
        true
    }

    /// The order of the magnitudes; none where either is a NaN.
    open spec fn partial_cmp_spec(&self, other: &SquareMeters) -> Option<Ordering> {
        ordering(self@, other@)
    }
}

impl PartialOrd for SquareMeters {
    fn partial_cmp(&self, other: &SquareMeters) -> (r: Option<Ordering>) {
        compare(self.0.bits, other.0.bits)
    }
}

impl vstd::std_specs::ops::AddSpecImpl for SquareMeters {
    open spec fn obeys_add_spec() -> bool {
        true
    }

    open spec fn add_req(self, rhs: SquareMeters) -> bool {
        true
    }

    /// The sum of the two magnitudes, rounded.
    open spec fn add_spec(self, rhs: SquareMeters) -> SquareMeters {
        SquareMeters(Scalar { bits: sum(self@, rhs@) })
    }
}

impl Add for SquareMeters {
    type Output = SquareMeters;

    fn add(self, rhs: SquareMeters) -> (r: SquareMeters) {
        SquareMeters(Scalar { bits: plus(self.0.bits, rhs.0.bits) })
    }
}

impl vstd::std_specs::ops::SubSpecImpl for SquareMeters {
    open spec fn obeys_sub_spec() -> bool {
        true
    }

    open spec fn sub_req(self, rhs: SquareMeters) -> bool {
        true
    }

    /// The difference of the two magnitudes, rounded.
    open spec fn sub_spec(self, rhs: SquareMeters) -> SquareMeters {
        SquareMeters(Scalar { bits: difference(self@, rhs@) })
    }
}

impl Sub for SquareMeters {
    type Output = SquareMeters;

    fn sub(self, rhs: SquareMeters) -> (r: SquareMeters) {
        SquareMeters(Scalar { bits: minus(self.0.bits, rhs.0.bits) })
    }
}

impl vstd::std_specs::ops::MulSpecImpl<Scalar> for SquareMeters {
    open spec fn obeys_mul_spec() -> bool {
        true
    }

    open spec fn mul_req(self, rhs: Scalar) -> bool {
        true
    }

    /// The magnitude times a plain number, rounded.
    open spec fn mul_spec(self, rhs: Scalar) -> SquareMeters {
        SquareMeters(Scalar { bits: product(self@, rhs@) })
    }
}

impl Mul<Scalar> for SquareMeters {
    type Output = SquareMeters;

    fn mul(self, rhs: Scalar) -> (r: SquareMeters) {
        SquareMeters(Scalar { bits: multiply(self.0.bits, rhs.bits) })
    }
}

impl vstd::std_specs::ops::DivSpecImpl<Scalar> for SquareMeters {
    open spec fn obeys_div_spec() -> bool {
        true
    }

    open spec fn div_req(self, rhs: Scalar) -> bool {
        true
    }

    /// The magnitude over a plain number, rounded.
    open spec fn div_spec(self, rhs: Scalar) -> SquareMeters {
        SquareMeters(Scalar { bits: quotient(self@, rhs@) })
    }
}

impl Div<Scalar> for SquareMeters {
    type Output = SquareMeters;

    fn div(self, rhs: Scalar) -> (r: SquareMeters) {
        SquareMeters(Scalar { bits: divide(self.0.bits, rhs.bits) })
    }
}

impl vstd::std_specs::ops::RemSpecImpl<Scalar> for SquareMeters {
    open spec fn obeys_rem_spec() -> bool {
        true
    }

    open spec fn rem_req(self, rhs: Scalar) -> bool {
        true
    }

    /// What is left of the magnitude after whole multiples of a plain number.
    open spec fn rem_spec(self, rhs: Scalar) -> SquareMeters {
        SquareMeters(Scalar { bits: remainder(self@, rhs@) })
    }
}

impl Rem<Scalar> for SquareMeters {
    type Output = SquareMeters;

    fn rem(self, rhs: Scalar) -> (r: SquareMeters) {
        SquareMeters(Scalar { bits: modulo(self.0.bits, rhs.bits) })
    }
}

impl AddAssign for SquareMeters {
    fn add_assign(&mut self, rhs: SquareMeters)
        ensures
            *final(self) == SquareMeters(Scalar { bits: sum(old(self)@, rhs@) }),
    {
        *self = SquareMeters(Scalar { bits: plus(self.0.bits, rhs.0.bits) });
    }
}

impl SubAssign for SquareMeters {
    fn sub_assign(&mut self, rhs: SquareMeters)
        ensures
            *final(self) == SquareMeters(Scalar { bits: difference(old(self)@, rhs@) }),
    {
        *self = SquareMeters(Scalar { bits: minus(self.0.bits, rhs.0.bits) });
    }
}

impl MulAssign<Scalar> for SquareMeters {
    fn mul_assign(&mut self, rhs: Scalar)
        ensures
            *final(self) == SquareMeters(Scalar { bits: product(old(self)@, rhs@) }),
    {
        *self = SquareMeters(Scalar { bits: multiply(self.0.bits, rhs.bits) });
    }
}

impl DivAssign<Scalar> for SquareMeters {
    fn div_assign(&mut self, rhs: Scalar)
        ensures
            *final(self) == SquareMeters(Scalar { bits: quotient(old(self)@, rhs@) }),
    {
        *self = SquareMeters(Scalar { bits: divide(self.0.bits, rhs.bits) });
    }
}

impl RemAssign<Scalar> for SquareMeters {
    fn rem_assign(&mut self, rhs: Scalar)
        ensures
            *final(self) == SquareMeters(Scalar { bits: remainder(old(self)@, rhs@) }),
    {
        *self = SquareMeters(Scalar { bits: modulo(self.0.bits, rhs.bits) });
    }
}

impl Area for SquareMeters {
    open spec fn in_square_meters(self) -> SquareMeters {
        self
    }

    fn square_meters(self) -> (r: SquareMeters) {
        self
    }
}

impl vstd::std_specs::ops::MulSpecImpl<Meters> for Meters {
    open spec fn obeys_mul_spec() -> bool {
        true
    }

    open spec fn mul_req(self, rhs: Meters) -> bool {
        true
    }

    /// A length times a length is an area: the product of the magnitudes, rounded.
    open spec fn mul_spec(self, rhs: Meters) -> SquareMeters {
        SquareMeters(Scalar { bits: product(self@, rhs@) })
    }
}

impl Mul<Meters> for Meters {
    type Output = SquareMeters;

    fn mul(self, rhs: Meters) -> (r: SquareMeters) {
        SquareMeters(Scalar { bits: multiply(self.0.bits, rhs.0.bits) })
    }
}

impl vstd::std_specs::ops::DivSpecImpl<Meters> for SquareMeters {
    open spec fn obeys_div_spec() -> bool {
        true
    }

    open spec fn div_req(self, rhs: Meters) -> bool {
        true
    }

    /// An area over a length is a length: the quotient of the magnitudes, rounded.
    open spec fn div_spec(self, rhs: Meters) -> Meters {
        Meters(Scalar { bits: quotient(self@, rhs@) })
    }
}

impl Div<Meters> for SquareMeters {
    type Output = Meters;

    fn div(self, rhs: Meters) -> (r: Meters) {
        Meters(Scalar { bits: divide(self.0.bits, rhs.0.bits) })
    }
}

} // verus!

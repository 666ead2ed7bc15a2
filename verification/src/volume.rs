//! Volumes in cubic meters, and what links them to lengths and areas.

use vstd::prelude::*;
use std::cmp::Ordering;
use std::ops::{
    Add, AddAssign, Div, DivAssign, Mul, MulAssign, Rem, RemAssign, Sub, SubAssign,
};
use crate::Unit;
use crate::scalar::Scalar;
use crate::area::SquareMeters;
use crate::length::Meters;
use crate::binary64::divide::{divide, quotient};
use crate::binary64::multiply::{multiply, product};
use crate::binary64::order::{equal, ordering, is_equal, compare};
use crate::binary64::remainder::{modulo, remainder};
use crate::binary64::sum::{plus, minus, sum, difference};

verus! {

/// A volume.
pub trait Volume: Unit + Into<CubicMeters> {
    /// This volume in cubic meters.
    spec fn in_cubic_meters(self) -> CubicMeters;

    /// This volume in cubic meters.
    fn square_meters(self) -> (r: CubicMeters)
        ensures
            r == self.in_cubic_meters(),
    ;
}

/// A volume in cubic meters.
#[derive(Clone, Copy, Debug)]
pub struct CubicMeters(pub Scalar);

impl View for CubicMeters {
    type V = u64;

    /// The bit pattern of the raw scalar.
    open spec fn view(&self) -> u64 {
        self.0.bits
    }
}

impl CubicMeters {
    /// A volume of the given magnitude.
    pub fn new(value: Scalar) -> (r: CubicMeters)
        ensures
            r == CubicMeters(value),
    {
        CubicMeters(value)
    }
}

impl vstd::std_specs::convert::FromSpecImpl<Scalar> for CubicMeters {
    open spec fn obeys_from_spec() -> bool {
        true
    }

    open spec fn from_spec(value: Scalar) -> CubicMeters {
        CubicMeters(value)
    }
}

impl From<Scalar> for CubicMeters {
    fn from(value: Scalar) -> (r: CubicMeters) {
        CubicMeters(value)
    }
}

impl AsRef<Scalar> for CubicMeters {
    fn as_ref(&self) -> (r: &Scalar)
        ensures
            *r == self.0,
    {
        &self.0
    }
}

impl Unit for CubicMeters {
    open spec fn raw(self) -> Scalar {
        self.0
    }

    fn value(self) -> (r: Scalar) {
        self.0
    }
}

impl vstd::std_specs::cmp::PartialEqSpecImpl for CubicMeters {
    open spec fn obeys_eq_spec() -> bool {
        true
    }

    /// Equal magnitudes: the two zeros are equal, a NaN equals nothing.
    open spec fn eq_spec(&self, other: &CubicMeters) -> bool {
        equal(self@, other@)
    }
}

impl PartialEq for CubicMeters {
    fn eq(&self, other: &CubicMeters) -> (r: bool) {
        is_equal(self.0.bits, other.0.bits)
    }
}

impl vstd::std_specs::cmp::PartialOrdSpecImpl for CubicMeters {
    open spec fn obeys_partial_cmp_spec() -> bool {
        true
    }

    /// The order of the magnitudes; none where either is a NaN.
    open spec fn partial_cmp_spec(&self, other: &CubicMeters) -> Option<Ordering> {
        ordering(self@, other@)
    }
}

impl PartialOrd for CubicMeters {
    fn partial_cmp(&self, other: &CubicMeters) -> (r: Option<Ordering>) {
        compare(self.0.bits, other.0.bits)
    }
}

impl vstd::std_specs::ops::AddSpecImpl for CubicMeters {
    open spec fn obeys_add_spec() -> bool {
        true
    }

    open spec fn add_req(self, rhs: CubicMeters) -> bool {
        true
    }

    /// The sum of the two magnitudes, rounded.
    open spec fn add_spec(self, rhs: CubicMeters) -> CubicMeters {
        CubicMeters(Scalar { bits: sum(self@, rhs@) })
    }
}

impl Add for CubicMeters {
    type Output = CubicMeters;

    fn add(self, rhs: CubicMeters) -> (r: CubicMeters) {
        CubicMeters(Scalar { bits: plus(self.0.bits, rhs.0.bits) })
    }
}

impl vstd::std_specs::ops::SubSpecImpl for CubicMeters {
    open spec fn obeys_sub_spec() -> bool {
        true
    }

    open spec fn sub_req(self, rhs: CubicMeters) -> bool {
        true
    }

    /// The difference of the two magnitudes, rounded.
    open spec fn sub_spec(self, rhs: CubicMeters) -> CubicMeters {
        CubicMeters(Scalar { bits: difference(self@, rhs@) })
    }
}

impl Sub for CubicMeters {
    type Output = CubicMeters;

    fn sub(self, rhs: CubicMeters) -> (r: CubicMeters) {
        CubicMeters(Scalar { bits: minus(self.0.bits, rhs.0.bits) })
    }
}

impl vstd::std_specs::ops::MulSpecImpl<Scalar> for CubicMeters {
    open spec fn obeys_mul_spec() -> bool {
        true
    }

    open spec fn mul_req(self, rhs: Scalar) -> bool {
        true
    }

    /// The magnitude times a plain number, rounded.
    open spec fn mul_spec(self, rhs: Scalar) -> CubicMeters {
        CubicMeters(Scalar { bits: product(self@, rhs@) })
    }
}

impl Mul<Scalar> for CubicMeters {
    type Output = CubicMeters;

    fn mul(self, rhs: Scalar) -> (r: CubicMeters) {
        CubicMeters(Scalar { bits: multiply(self.0.bits, rhs.bits) })
    }
}

impl vstd::std_specs::ops::DivSpecImpl<Scalar> for CubicMeters {
    open spec fn obeys_div_spec() -> bool {
        true
    }

    open spec fn div_req(self, rhs: Scalar) -> bool {
        true
    }

    /// The magnitude over a plain number, rounded.
    open spec fn div_spec(self, rhs: Scalar) -> CubicMeters {
        CubicMeters(Scalar { bits: quotient(self@, rhs@) })
    }
}

impl Div<Scalar> for CubicMeters {
    type Output = CubicMeters;

    fn div(self, rhs: Scalar) -> (r: CubicMeters) {
        CubicMeters(Scalar { bits: divide(self.0.bits, rhs.bits) })
    }
}

impl vstd::std_specs::ops::RemSpecImpl<Scalar> for CubicMeters {
    open spec fn obeys_rem_spec() -> bool {
        true
    }

    open spec fn rem_req(self, rhs: Scalar) -> bool {
        true
    }

    /// What is left of the magnitude after whole multiples of a plain number.
    open spec fn rem_spec(self, rhs: Scalar) -> CubicMeters {
        CubicMeters(Scalar { bits: remainder(self@, rhs@) })
    }
}

impl Rem<Scalar> for CubicMeters {
    type Output = CubicMeters;

    fn rem(self, rhs: Scalar) -> (r: CubicMeters) {
        CubicMeters(Scalar { bits: modulo(self.0.bits, rhs.bits) })
    }
}

impl AddAssign for CubicMeters {
    fn add_assign(&mut self, rhs: CubicMeters)
        ensures
            *final(self) == CubicMeters(Scalar { bits: sum(old(self)@, rhs@) }),
    {
        *self = CubicMeters(Scalar { bits: plus(self.0.bits, rhs.0.bits) });
    }
}

impl SubAssign for CubicMeters {
    fn sub_assign(&mut self, rhs: CubicMeters)
        ensures
            *final(self) == CubicMeters(Scalar { bits: difference(old(self)@, rhs@) }),
    {
        *self = CubicMeters(Scalar { bits: minus(self.0.bits, rhs.0.bits) });
    }
}

impl MulAssign<Scalar> for CubicMeters {
    fn mul_assign(&mut self, rhs: Scalar)
        ensures
            *final(self) == CubicMeters(Scalar { bits: product(old(self)@, rhs@) }),
    {
        *self = CubicMeters(Scalar { bits: multiply(self.0.bits, rhs.bits) });
    }
}

impl DivAssign<Scalar> for CubicMeters {
    fn div_assign(&mut self, rhs: Scalar)
        ensures
            *final(self) == CubicMeters(Scalar { bits: quotient(old(self)@, rhs@) }),
    {
        *self = CubicMeters(Scalar { bits: divide(self.0.bits, rhs.bits) });
    }
}

impl RemAssign<Scalar> for CubicMeters {
    fn rem_assign(&mut self, rhs: Scalar)
        ensures
            *final(self) == CubicMeters(Scalar { bits: remainder(old(self)@, rhs@) }),
    {
        *self = CubicMeters(Scalar { bits: modulo(self.0.bits, rhs.bits) });
    }
}

impl Volume for CubicMeters {
    open spec fn in_cubic_meters(self) -> CubicMeters {
        self
    }

    fn square_meters(self) -> (r: CubicMeters) {
        self
    }
}

impl vstd::std_specs::ops::MulSpecImpl<Meters> for SquareMeters {
    open spec fn obeys_mul_spec() -> bool {
        true
    }

    open spec fn mul_req(self, rhs: Meters) -> bool {
        true
    }

    /// An area times a length is a volume: the product of the magnitudes, rounded.
    open spec fn mul_spec(self, rhs: Meters) -> CubicMeters {
        CubicMeters(Scalar { bits: product(self@, rhs@) })
    }
}

impl Mul<Meters> for SquareMeters {
    type Output = CubicMeters;

    fn mul(self, rhs: Meters) -> (r: CubicMeters) {
        CubicMeters(Scalar { bits: multiply(self.0.bits, rhs.0.bits) })
    }
}

impl vstd::std_specs::ops::MulSpecImpl<SquareMeters> for Meters {
    open spec fn obeys_mul_spec() -> bool {
        true
    }

    open spec fn mul_req(self, rhs: SquareMeters) -> bool {
        true
    }

    /// A length times an area is a volume: the product of the magnitudes, rounded.
    open spec fn mul_spec(self, rhs: SquareMeters) -> CubicMeters {
        CubicMeters(Scalar { bits: product(self@, rhs@) })
    }
}

impl Mul<SquareMeters> for Meters {
    type Output = CubicMeters;

    fn mul(self, rhs: SquareMeters) -> (r: CubicMeters) {
        CubicMeters(Scalar { bits: multiply(self.0.bits, rhs.0.bits) })
    }
}

impl vstd::std_specs::ops::DivSpecImpl<Meters> for CubicMeters {
    open spec fn obeys_div_spec() -> bool {
        true
    }

    open spec fn div_req(self, rhs: Meters) -> bool {
        true
    }

    /// A volume over a length is an area: the quotient of the magnitudes, rounded.
    open spec fn div_spec(self, rhs: Meters) -> SquareMeters {
        SquareMeters(Scalar { bits: quotient(self@, rhs@) })
    }
}

impl Div<Meters> for CubicMeters {
    type Output = SquareMeters;

    fn div(self, rhs: Meters) -> (r: SquareMeters) {
        SquareMeters(Scalar { bits: divide(self.0.bits, rhs.0.bits) })
    }
}

impl vstd::std_specs::ops::DivSpecImpl<SquareMeters> for CubicMeters {
    open spec fn obeys_div_spec() -> bool {
        true
    }

    open spec fn div_req(self, rhs: SquareMeters) -> bool {
        true
    }

    /// A volume over an area is a length: the quotient of the magnitudes, rounded.
    open spec fn div_spec(self, rhs: SquareMeters) -> Meters {
        Meters(Scalar { bits: quotient(self@, rhs@) })
    }
}

impl Div<SquareMeters> for CubicMeters {
    type Output = Meters;

    fn div(self, rhs: SquareMeters) -> (r: Meters) {
        Meters(Scalar { bits: divide(self.0.bits, rhs.0.bits) })
    }
}

} // verus!

//! Angles in degrees and radians.
//!
//! Radians become degrees by a multiplication by 180 and a division by pi,
//! degrees become radians by a multiplication by pi and a division by 180;
//! each of the two steps rounds.

use vstd::prelude::*;
use std::cmp::Ordering;
use std::ops::{
    Add, AddAssign, Div, DivAssign, Mul, MulAssign, Rem, RemAssign, Sub, SubAssign,
};
use vstd::std_specs::convert::FromSpec;
use crate::Unit;
use crate::scalar::Scalar;
use crate::binary64::divide::{divide, quotient};
use crate::binary64::multiply::{multiply, product};
use crate::binary64::order::{equal, ordering, is_equal, compare};
use crate::binary64::remainder::{modulo, remainder};
use crate::binary64::sum::{plus, minus, sum, difference};

verus! {

/// The binary64 number 180: the degrees in half a turn.
pub const HALF_TURN_DEGREES: u64 = 0x4066_8000_0000_0000;

/// The binary64 number nearest to pi: the radians in half a turn.
pub const PI: u64 = 0x4009_21fb_5444_2d18;

/// An angle, in either unit.
pub trait Angle: Unit + Into<Radians> + Into<Degrees> {
    /// This angle in radians.
    spec fn in_radians(self) -> Radians;

    /// This angle in degrees.
    spec fn in_degrees(self) -> Degrees;

    fn radians(self) -> (r: Radians)
        ensures
            r == self.in_radians(),
    ;

    fn degrees(self) -> (r: Degrees)
        ensures
            r == self.in_degrees(),
    ;
}

/// An angle in degrees.
#[derive(Clone, Copy, Debug)]
pub struct Degrees(pub Scalar);

impl View for Degrees {
    type V = u64;

    /// The bit pattern of the raw scalar.
    open spec fn view(&self) -> u64 {
        self.0.bits
    }
}

impl Degrees {
    /// An angle of the given magnitude.
    pub fn new(value: Scalar) -> (r: Degrees)
        ensures
            r == Degrees(value),
    {
        Degrees(value)
    }
}

impl vstd::std_specs::convert::FromSpecImpl<Scalar> for Degrees {
    open spec fn obeys_from_spec() -> bool {
        true
    }

    open spec fn from_spec(value: Scalar) -> Degrees {
        Degrees(value)
    }
}

impl From<Scalar> for Degrees {
    fn from(value: Scalar) -> (r: Degrees) {
        Degrees(value)
    }
}

impl AsRef<Scalar> for Degrees {
    fn as_ref(&self) -> (r: &Scalar)
        ensures
            *r == self.0,
    {
        &self.0
    }
}

impl Unit for Degrees {
    open spec fn raw(self) -> Scalar {
        self.0
    }

    fn value(self) -> (r: Scalar) {
        self.0
    }
}

impl vstd::std_specs::cmp::PartialEqSpecImpl for Degrees {
    open spec fn obeys_eq_spec() -> bool {
        true
    }

    /// Equal magnitudes: the two zeros are equal, a NaN equals nothing.
    open spec fn eq_spec(&self, other: &Degrees) -> bool {
        equal(self@, other@)
    }
}

impl PartialEq for Degrees {
    fn eq(&self, other: &Degrees) -> (r: bool) {
        is_equal(self.0.bits, other.0.bits)
    }
}

impl vstd::std_specs::cmp::PartialOrdSpecImpl for Degrees {
    open spec fn obeys_partial_cmp_spec() -> bool {
        true
    }

    /// The order of the magnitudes; none where either is a NaN.
    open spec fn partial_cmp_spec(&self, other: &Degrees) -> Option<Ordering> {
        ordering(self@, other@)
    }
}

impl PartialOrd for Degrees {
    fn partial_cmp(&self, other: &Degrees) -> (r: Option<Ordering>) {
        compare(self.0.bits, other.0.bits)
    }
}

impl vstd::std_specs::ops::AddSpecImpl for Degrees {
    open spec fn obeys_add_spec() -> bool {
        true
    }

    open spec fn add_req(self, rhs: Degrees) -> bool {
        true
    }

    /// The sum of the two magnitudes, rounded.
    open spec fn add_spec(self, rhs: Degrees) -> Degrees {
        Degrees(Scalar { bits: sum(self@, rhs@) })
    }
}

impl Add for Degrees {
    type Output = Degrees;

    fn add(self, rhs: Degrees) -> (r: Degrees) {
        Degrees(Scalar { bits: plus(self.0.bits, rhs.0.bits) })
    }
}

impl vstd::std_specs::ops::SubSpecImpl for Degrees {
    open spec fn obeys_sub_spec() -> bool {
        true
    }

    open spec fn sub_req(self, rhs: Degrees) -> bool {
        true
    }

    /// The difference of the two magnitudes, rounded.
    open spec fn sub_spec(self, rhs: Degrees) -> Degrees {
        Degrees(Scalar { bits: difference(self@, rhs@) })
    }
}

impl Sub for Degrees {
    type Output = Degrees;

    fn sub(self, rhs: Degrees) -> (r: Degrees) {
        Degrees(Scalar { bits: minus(self.0.bits, rhs.0.bits) })
    }
}

impl vstd::std_specs::ops::MulSpecImpl<Scalar> for Degrees {
    open spec fn obeys_mul_spec() -> bool {
        true
    }

    open spec fn mul_req(self, rhs: Scalar) -> bool {
        true
    }

    /// The magnitude times a plain number, rounded.
    open spec fn mul_spec(self, rhs: Scalar) -> Degrees {
        Degrees(Scalar { bits: product(self@, rhs@) })
    }
}

impl Mul<Scalar> for Degrees {
    type Output = Degrees;

    fn mul(self, rhs: Scalar) -> (r: Degrees) {
        Degrees(Scalar { bits: multiply(self.0.bits, rhs.bits) })
    }
}

impl vstd::std_specs::ops::DivSpecImpl<Scalar> for Degrees {
    open spec fn obeys_div_spec() -> bool {
        true
    }

    open spec fn div_req(self, rhs: Scalar) -> bool {
        true
    }

    /// The magnitude over a plain number, rounded.
    open spec fn div_spec(self, rhs: Scalar) -> Degrees {
        Degrees(Scalar { bits: quotient(self@, rhs@) })
    }
}

impl Div<Scalar> for Degrees {
    type Output = Degrees;

    fn div(self, rhs: Scalar) -> (r: Degrees) {
        Degrees(Scalar { bits: divide(self.0.bits, rhs.bits) })
    }
}

impl vstd::std_specs::ops::RemSpecImpl<Scalar> for Degrees {
    open spec fn obeys_rem_spec() -> bool {
        true
    }

    open spec fn rem_req(self, rhs: Scalar) -> bool {
        true
    }

    /// What is left of the magnitude after whole multiples of a plain number.
    open spec fn rem_spec(self, rhs: Scalar) -> Degrees {
        Degrees(Scalar { bits: remainder(self@, rhs@) })
    }
}

impl Rem<Scalar> for Degrees {
    type Output = Degrees;

    fn rem(self, rhs: Scalar) -> (r: Degrees) {
        Degrees(Scalar { bits: modulo(self.0.bits, rhs.bits) })
    }
}

impl AddAssign for Degrees {
    fn add_assign(&mut self, rhs: Degrees)
        ensures
            *final(self) == Degrees(Scalar { bits: sum(old(self)@, rhs@) }),
    {
        *self = Degrees(Scalar { bits: plus(self.0.bits, rhs.0.bits) });
    }
}

impl SubAssign for Degrees {
    fn sub_assign(&mut self, rhs: Degrees)
        ensures
            *final(self) == Degrees(Scalar { bits: difference(old(self)@, rhs@) }),
    {
        *self = Degrees(Scalar { bits: minus(self.0.bits, rhs.0.bits) });
    }
}

impl MulAssign<Scalar> for Degrees {
    fn mul_assign(&mut self, rhs: Scalar)
        ensures
            *final(self) == Degrees(Scalar { bits: product(old(self)@, rhs@) }),
    {
        *self = Degrees(Scalar { bits: multiply(self.0.bits, rhs.bits) });
    }
}

impl DivAssign<Scalar> for Degrees {
    fn div_assign(&mut self, rhs: Scalar)
        ensures
            *final(self) == Degrees(Scalar { bits: quotient(old(self)@, rhs@) }),
    {
        *self = Degrees(Scalar { bits: divide(self.0.bits, rhs.bits) });
    }
}

impl RemAssign<Scalar> for Degrees {
    fn rem_assign(&mut self, rhs: Scalar)
        ensures
            *final(self) == Degrees(Scalar { bits: remainder(old(self)@, rhs@) }),
    {
        *self = Degrees(Scalar { bits: modulo(self.0.bits, rhs.bits) });
    }
}

impl vstd::std_specs::convert::FromSpecImpl<Radians> for Degrees {
    open spec fn obeys_from_spec() -> bool {
        true
    }

    /// Radians times 180, over pi.
    open spec fn from_spec(value: Radians) -> Degrees {
        Degrees(Scalar { bits: quotient(product(value@, HALF_TURN_DEGREES), PI) })
    }
}

impl From<Radians> for Degrees {
    fn from(value: Radians) -> (r: Degrees) {
        Degrees(Scalar { bits: divide(multiply(value.0.bits, HALF_TURN_DEGREES), PI) })
    }
}

/// An angle in radians.
#[derive(Clone, Copy, Debug)]
pub struct Radians(pub Scalar);

impl View for Radians {
    type V = u64;

    /// The bit pattern of the raw scalar.
    open spec fn view(&self) -> u64 {
        self.0.bits
    }
}

impl Radians {
    /// An angle of the given magnitude.
    pub fn new(value: Scalar) -> (r: Radians)
        ensures
            r == Radians(value),
    {
        Radians(value)
    }
}

impl vstd::std_specs::convert::FromSpecImpl<Scalar> for Radians {
    open spec fn obeys_from_spec() -> bool {
        true
    }

    open spec fn from_spec(value: Scalar) -> Radians {
        Radians(value)
    }
}

impl From<Scalar> for Radians {
    fn from(value: Scalar) -> (r: Radians) {
        Radians(value)
    }
}

impl AsRef<Scalar> for Radians {
    fn as_ref(&self) -> (r: &Scalar)
        ensures
            *r == self.0,
    {
        &self.0
    }
}

impl Unit for Radians {
    open spec fn raw(self) -> Scalar {
        self.0
    }

    fn value(self) -> (r: Scalar) {
        self.0
    }
}

impl vstd::std_specs::cmp::PartialEqSpecImpl for Radians {
    open spec fn obeys_eq_spec() -> bool {
        true
    }

    /// Equal magnitudes: the two zeros are equal, a NaN equals nothing.
    open spec fn eq_spec(&self, other: &Radians) -> bool {
        equal(self@, other@)
    }
}

impl PartialEq for Radians {
    fn eq(&self, other: &Radians) -> (r: bool) {
        is_equal(self.0.bits, other.0.bits)
    }
}

impl vstd::std_specs::cmp::PartialOrdSpecImpl for Radians {
    open spec fn obeys_partial_cmp_spec() -> bool {
        true
    }

    /// The order of the magnitudes; none where either is a NaN.
    open spec fn partial_cmp_spec(&self, other: &Radians) -> Option<Ordering> {
        ordering(self@, other@)
    }
}

impl PartialOrd for Radians {
    fn partial_cmp(&self, other: &Radians) -> (r: Option<Ordering>) {
        compare(self.0.bits, other.0.bits)
    }
}

impl vstd::std_specs::ops::AddSpecImpl for Radians {
    open spec fn obeys_add_spec() -> bool {
        true
    }

    open spec fn add_req(self, rhs: Radians) -> bool {
        true
    }

    /// The sum of the two magnitudes, rounded.
    open spec fn add_spec(self, rhs: Radians) -> Radians {
        Radians(Scalar { bits: sum(self@, rhs@) })
    }
}

impl Add for Radians {
    type Output = Radians;

    fn add(self, rhs: Radians) -> (r: Radians) {
        Radians(Scalar { bits: plus(self.0.bits, rhs.0.bits) })
    }
}

impl vstd::std_specs::ops::SubSpecImpl for Radians {
    open spec fn obeys_sub_spec() -> bool {
        true
    }

    open spec fn sub_req(self, rhs: Radians) -> bool {
        true
    }

    /// The difference of the two magnitudes, rounded.
    open spec fn sub_spec(self, rhs: Radians) -> Radians {
        Radians(Scalar { bits: difference(self@, rhs@) })
    }
}

impl Sub for Radians {
    type Output = Radians;

    fn sub(self, rhs: Radians) -> (r: Radians) {
        Radians(Scalar { bits: minus(self.0.bits, rhs.0.bits) })
    }
}

impl vstd::std_specs::ops::MulSpecImpl<Scalar> for Radians {
    open spec fn obeys_mul_spec() -> bool {
        true
    }

    open spec fn mul_req(self, rhs: Scalar) -> bool {
        true
    }

    /// The magnitude times a plain number, rounded.
    open spec fn mul_spec(self, rhs: Scalar) -> Radians {
        Radians(Scalar { bits: product(self@, rhs@) })
    }
}

impl Mul<Scalar> for Radians {
    type Output = Radians;

    fn mul(self, rhs: Scalar) -> (r: Radians) {
        Radians(Scalar { bits: multiply(self.0.bits, rhs.bits) })
    }
}

impl vstd::std_specs::ops::DivSpecImpl<Scalar> for Radians {
    open spec fn obeys_div_spec() -> bool {
        true
    }

    open spec fn div_req(self, rhs: Scalar) -> bool {
        true
    }

    /// The magnitude over a plain number, rounded.
    open spec fn div_spec(self, rhs: Scalar) -> Radians {
        Radians(Scalar { bits: quotient(self@, rhs@) })
    }
}

impl Div<Scalar> for Radians {
    type Output = Radians;

    fn div(self, rhs: Scalar) -> (r: Radians) {
        Radians(Scalar { bits: divide(self.0.bits, rhs.bits) })
    }
}

impl vstd::std_specs::ops::RemSpecImpl<Scalar> for Radians {
    open spec fn obeys_rem_spec() -> bool {
        true
    }

    open spec fn rem_req(self, rhs: Scalar) -> bool {
        true
    }

    /// What is left of the magnitude after whole multiples of a plain number.
    open spec fn rem_spec(self, rhs: Scalar) -> Radians {
        Radians(Scalar { bits: remainder(self@, rhs@) })
    }
}

impl Rem<Scalar> for Radians {
    type Output = Radians;

    fn rem(self, rhs: Scalar) -> (r: Radians) {
        Radians(Scalar { bits: modulo(self.0.bits, rhs.bits) })
    }
}

impl AddAssign for Radians {
    fn add_assign(&mut self, rhs: Radians)
        ensures
            *final(self) == Radians(Scalar { bits: sum(old(self)@, rhs@) }),
    {
        *self = Radians(Scalar { bits: plus(self.0.bits, rhs.0.bits) });
    }
}

impl SubAssign for Radians {
    fn sub_assign(&mut self, rhs: Radians)
        ensures
            *final(self) == Radians(Scalar { bits: difference(old(self)@, rhs@) }),
    {
        *self = Radians(Scalar { bits: minus(self.0.bits, rhs.0.bits) });
    }
}

impl MulAssign<Scalar> for Radians {
    fn mul_assign(&mut self, rhs: Scalar)
        ensures
            *final(self) == Radians(Scalar { bits: product(old(self)@, rhs@) }),
    {
        *self = Radians(Scalar { bits: multiply(self.0.bits, rhs.bits) });
    }
}

impl DivAssign<Scalar> for Radians {
    fn div_assign(&mut self, rhs: Scalar)
        ensures
            *final(self) == Radians(Scalar { bits: quotient(old(self)@, rhs@) }),
    {
        *self = Radians(Scalar { bits: divide(self.0.bits, rhs.bits) });
    }
}

impl RemAssign<Scalar> for Radians {
    fn rem_assign(&mut self, rhs: Scalar)
        ensures
            *final(self) == Radians(Scalar { bits: remainder(old(self)@, rhs@) }),
    {
        *self = Radians(Scalar { bits: modulo(self.0.bits, rhs.bits) });
    }
}

impl vstd::std_specs::convert::FromSpecImpl<Degrees> for Radians {
    open spec fn obeys_from_spec() -> bool {
        true
    }

    /// Degrees times pi, over 180.
    open spec fn from_spec(value: Degrees) -> Radians {
        Radians(Scalar { bits: quotient(product(value@, PI), HALF_TURN_DEGREES) })
    }
}

impl From<Degrees> for Radians {
    fn from(value: Degrees) -> (r: Radians) {
        Radians(Scalar { bits: divide(multiply(value.0.bits, PI), HALF_TURN_DEGREES) })
    }
}

impl Angle for Degrees {
    open spec fn in_radians(self) -> Radians {
        Radians::from_spec(self)
    }

    open spec fn in_degrees(self) -> Degrees {
        self
    }

    fn radians(self) -> (r: Radians) {
        Radians::from(self)
    }

    fn degrees(self) -> (r: Degrees) {
        self
    }
}

impl Angle for Radians {
    open spec fn in_radians(self) -> Radians {
        self
    }

    open spec fn in_degrees(self) -> Degrees {
        Degrees::from_spec(self)
    }

    fn radians(self) -> (r: Radians) {
        self
    }

    fn degrees(self) -> (r: Degrees) {
        Degrees::from(self)
    }
}

} // verus!

//! Lengths in meters, kilometers and miles.
//!
//! One kilometer is 1000 meters and one mile is 1609.344 meters, so one mile
//! is 1.609344 kilometers. Each conversion is one multiplication or division
//! by one of the three constants, rounded once.

use vstd::prelude::*;
use std::cmp::Ordering;
use std::ops::{
    Add, AddAssign, Div, DivAssign, Mul, MulAssign, Rem, RemAssign, Sub, SubAssign,
};
use vstd::std_specs::convert::FromSpec;
use crate::Unit;
use crate::scalar::Scalar;
use crate::binary64::divide::{divide, quotient};
use crate::binary64::multiply::{multiply, product};
use crate::binary64::order::{equal, ordering, is_equal, compare};
use crate::binary64::remainder::{modulo, remainder};
use crate::binary64::sum::{plus, minus, sum, difference};

verus! {

/// The binary64 number 1000: the meters in a kilometer.
pub const METERS_PER_KILOMETER: u64 = 0x408f_4000_0000_0000;

/// The binary64 number nearest to 1609.344: the meters in a mile.
pub const METERS_PER_MILE: u64 = 0x4099_2560_4189_374c;

/// The binary64 number nearest to 1.609344: the kilometers in a mile.
pub const KILOMETERS_PER_MILE: u64 = 0x3ff9_bfdf_7e80_38a0;

/// A length, in any of the three units.
pub trait Length: Unit + Into<Meters> + Into<Kilometers> + Into<Miles> {
    /// This length in meters.
    spec fn in_meters(self) -> Meters;

    /// This length in kilometers.
    spec fn in_kilometers(self) -> Kilometers;

    /// This length in miles.
    spec fn in_miles(self) -> Miles;

    fn meters(self) -> (r: Meters)
        ensures
            r == self.in_meters(),
    ;

    fn kilometers(self) -> (r: Kilometers)
        ensures
            r == self.in_kilometers(),
    ;

    fn miles(self) -> (r: Miles)
        ensures
            r == self.in_miles(),
    ;
}

/// A length in meters.
#[derive(Clone, Copy, Debug)]
pub struct Meters(pub Scalar);

impl View for Meters {
    type V = u64;

    /// The bit pattern of the raw scalar.
    open spec fn view(&self) -> u64 {
        self.0.bits
    }
}

impl Meters {
    /// A length of the given magnitude.
    pub fn new(value: Scalar) -> (r: Meters)
        ensures
            r == Meters(value),
    {
        Meters(value)
    }
}

impl vstd::std_specs::convert::FromSpecImpl<Scalar> for Meters {
    open spec fn obeys_from_spec() -> bool {
        true
    }

    open spec fn from_spec(value: Scalar) -> Meters {
        Meters(value)
    }
}

impl From<Scalar> for Meters {
    fn from(value: Scalar) -> (r: Meters) {
        Meters(value)
    }
}

impl AsRef<Scalar> for Meters {
    fn as_ref(&self) -> (r: &Scalar)
        ensures
            *r == self.0,
    {
        &self.0
    }
}

impl Unit for Meters {
    open spec fn raw(self) -> Scalar {
        self.0
    }

    fn value(self) -> (r: Scalar) {
        self.0
    }
}

impl vstd::std_specs::cmp::PartialEqSpecImpl for Meters {
    open spec fn obeys_eq_spec() -> bool {
        true
    }

    /// Equal magnitudes: the two zeros are equal, a NaN equals nothing.
    open spec fn eq_spec(&self, other: &Meters) -> bool {
        equal(self@, other@)
    }
}

impl PartialEq for Meters {
    fn eq(&self, other: &Meters) -> (r: bool) {
        is_equal(self.0.bits, other.0.bits)
    }
}

impl vstd::std_specs::cmp::PartialOrdSpecImpl for Meters {
    open spec fn obeys_partial_cmp_spec() -> bool {
        true
    }

    /// The order of the magnitudes; none where either is a NaN.
    open spec fn partial_cmp_spec(&self, other: &Meters) -> Option<Ordering> {
        ordering(self@, other@)
    }
}

impl PartialOrd for Meters {
    fn partial_cmp(&self, other: &Meters) -> (r: Option<Ordering>) {
        compare(self.0.bits, other.0.bits)
    }
}

impl vstd::std_specs::ops::AddSpecImpl for Meters {
    open spec fn obeys_add_spec() -> bool {
        true
    }

    open spec fn add_req(self, rhs: Meters) -> bool {
        true
    }

    /// The sum of the two magnitudes, rounded.
    open spec fn add_spec(self, rhs: Meters) -> Meters {
        Meters(Scalar { bits: sum(self@, rhs@) })
    }
}

impl Add for Meters {
    type Output = Meters;

    fn add(self, rhs: Meters) -> (r: Meters) {
        Meters(Scalar { bits: plus(self.0.bits, rhs.0.bits) })
    }
}

impl vstd::std_specs::ops::SubSpecImpl for Meters {
    open spec fn obeys_sub_spec() -> bool {
        true
    }

    open spec fn sub_req(self, rhs: Meters) -> bool {
        true
    }

    /// The difference of the two magnitudes, rounded.
    open spec fn sub_spec(self, rhs: Meters) -> Meters {
        Meters(Scalar { bits: difference(self@, rhs@) })
    }
}

impl Sub for Meters {
    type Output = Meters;

    fn sub(self, rhs: Meters) -> (r: Meters) {
        Meters(Scalar { bits: minus(self.0.bits, rhs.0.bits) })
    }
}

impl vstd::std_specs::ops::MulSpecImpl<Scalar> for Meters {
    open spec fn obeys_mul_spec() -> bool {
        true
    }

    open spec fn mul_req(self, rhs: Scalar) -> bool {
        true
    }

    /// The magnitude times a plain number, rounded.
    open spec fn mul_spec(self, rhs: Scalar) -> Meters {
        Meters(Scalar { bits: product(self@, rhs@) })
    }
}

impl Mul<Scalar> for Meters {
    type Output = Meters;

    fn mul(self, rhs: Scalar) -> (r: Meters) {
        Meters(Scalar { bits: multiply(self.0.bits, rhs.bits) })
    }
}

impl vstd::std_specs::ops::DivSpecImpl<Scalar> for Meters {
    open spec fn obeys_div_spec() -> bool {
        true
    }

    open spec fn div_req(self, rhs: Scalar) -> bool {
        true
    }

    /// The magnitude over a plain number, rounded.
    open spec fn div_spec(self, rhs: Scalar) -> Meters {
        Meters(Scalar { bits: quotient(self@, rhs@) })
    }
}

impl Div<Scalar> for Meters {
    type Output = Meters;

    fn div(self, rhs: Scalar) -> (r: Meters) {
        Meters(Scalar { bits: divide(self.0.bits, rhs.bits) })
    }
}

impl vstd::std_specs::ops::RemSpecImpl<Scalar> for Meters {
    open spec fn obeys_rem_spec() -> bool {
        true
    }

    open spec fn rem_req(self, rhs: Scalar) -> bool {
        true
    }

    /// What is left of the magnitude after whole multiples of a plain number.
    open spec fn rem_spec(self, rhs: Scalar) -> Meters {
        Meters(Scalar { bits: remainder(self@, rhs@) })
    }
}

impl Rem<Scalar> for Meters {
    type Output = Meters;

    fn rem(self, rhs: Scalar) -> (r: Meters) {
        Meters(Scalar { bits: modulo(self.0.bits, rhs.bits) })
    }
}

impl AddAssign for Meters {
    fn add_assign(&mut self, rhs: Meters)
        ensures
            *final(self) == Meters(Scalar { bits: sum(old(self)@, rhs@) }),
    {
        *self = Meters(Scalar { bits: plus(self.0.bits, rhs.0.bits) });
    }
}

impl SubAssign for Meters {
    fn sub_assign(&mut self, rhs: Meters)
        ensures
            *final(self) == Meters(Scalar { bits: difference(old(self)@, rhs@) }),
    {
        *self = Meters(Scalar { bits: minus(self.0.bits, rhs.0.bits) });
    }
}

impl MulAssign<Scalar> for Meters {
    fn mul_assign(&mut self, rhs: Scalar)
        ensures
            *final(self) == Meters(Scalar { bits: product(old(self)@, rhs@) }),
    {
        *self = Meters(Scalar { bits: multiply(self.0.bits, rhs.bits) });
    }
}

impl DivAssign<Scalar> for Meters {
    fn div_assign(&mut self, rhs: Scalar)
        ensures
            *final(self) == Meters(Scalar { bits: quotient(old(self)@, rhs@) }),
    {
        *self = Meters(Scalar { bits: divide(self.0.bits, rhs.bits) });
    }
}

impl RemAssign<Scalar> for Meters {
    fn rem_assign(&mut self, rhs: Scalar)
        ensures
            *final(self) == Meters(Scalar { bits: remainder(old(self)@, rhs@) }),
    {
        *self = Meters(Scalar { bits: modulo(self.0.bits, rhs.bits) });
    }
}

impl vstd::std_specs::convert::FromSpecImpl<Kilometers> for Meters {
    open spec fn obeys_from_spec() -> bool {
        true
    }

    /// Kilometers times 1000.
    open spec fn from_spec(value: Kilometers) -> Meters {
        Meters(Scalar { bits: product(value@, METERS_PER_KILOMETER) })
    }
}

impl From<Kilometers> for Meters {
    fn from(value: Kilometers) -> (r: Meters) {
        Meters(Scalar { bits: multiply(value.0.bits, METERS_PER_KILOMETER) })
    }
}

impl vstd::std_specs::convert::FromSpecImpl<Miles> for Meters {
    open spec fn obeys_from_spec() -> bool {
        true
    }

    /// Miles times 1609.344.
    open spec fn from_spec(value: Miles) -> Meters {
        Meters(Scalar { bits: product(value@, METERS_PER_MILE) })
    }
}

impl From<Miles> for Meters {
    fn from(value: Miles) -> (r: Meters) {
        Meters(Scalar { bits: multiply(value.0.bits, METERS_PER_MILE) })
    }
}

/// A length in kilometers.
#[derive(Clone, Copy, Debug)]
pub struct Kilometers(pub Scalar);

impl View for Kilometers {
    type V = u64;

    /// The bit pattern of the raw scalar.
    open spec fn view(&self) -> u64 {
        self.0.bits
    }
}

impl Kilometers {
    /// A length of the given magnitude.
    pub fn new(value: Scalar) -> (r: Kilometers)
        ensures
            r == Kilometers(value),
    {
        Kilometers(value)
    }
}

impl vstd::std_specs::convert::FromSpecImpl<Scalar> for Kilometers {
    open spec fn obeys_from_spec() -> bool {
        true
    }

    open spec fn from_spec(value: Scalar) -> Kilometers {
        Kilometers(value)
    }
}

impl From<Scalar> for Kilometers {
    fn from(value: Scalar) -> (r: Kilometers) {
        Kilometers(value)
    }
}

impl AsRef<Scalar> for Kilometers {
    fn as_ref(&self) -> (r: &Scalar)
        ensures
            *r == self.0,
    {
        &self.0
    }
}

impl Unit for Kilometers {
    open spec fn raw(self) -> Scalar {
        self.0
    }

    fn value(self) -> (r: Scalar) {
        self.0
    }
}

impl vstd::std_specs::cmp::PartialEqSpecImpl for Kilometers {
    open spec fn obeys_eq_spec() -> bool {
        true
    }

    /// Equal magnitudes: the two zeros are equal, a NaN equals nothing.
    open spec fn eq_spec(&self, other: &Kilometers) -> bool {
        equal(self@, other@)
    }
}

impl PartialEq for Kilometers {
    fn eq(&self, other: &Kilometers) -> (r: bool) {
        is_equal(self.0.bits, other.0.bits)
    }
}

impl vstd::std_specs::cmp::PartialOrdSpecImpl for Kilometers {
    open spec fn obeys_partial_cmp_spec() -> bool {
        true
    }

    /// The order of the magnitudes; none where either is a NaN.
    open spec fn partial_cmp_spec(&self, other: &Kilometers) -> Option<Ordering> {
        ordering(self@, other@)
    }
}

impl PartialOrd for Kilometers {
    fn partial_cmp(&self, other: &Kilometers) -> (r: Option<Ordering>) {
        compare(self.0.bits, other.0.bits)
    }
}

impl vstd::std_specs::ops::AddSpecImpl for Kilometers {
    open spec fn obeys_add_spec() -> bool {
        true
    }

    open spec fn add_req(self, rhs: Kilometers) -> bool {
        true
    }

    /// The sum of the two magnitudes, rounded.
    open spec fn add_spec(self, rhs: Kilometers) -> Kilometers {
        Kilometers(Scalar { bits: sum(self@, rhs@) })
    }
}

impl Add for Kilometers {
    type Output = Kilometers;

    fn add(self, rhs: Kilometers) -> (r: Kilometers) {
        Kilometers(Scalar { bits: plus(self.0.bits, rhs.0.bits) })
    }
}

impl vstd::std_specs::ops::SubSpecImpl for Kilometers {
    open spec fn obeys_sub_spec() -> bool {
        true
    }

    open spec fn sub_req(self, rhs: Kilometers) -> bool {
        true
    }

    /// The difference of the two magnitudes, rounded.
    open spec fn sub_spec(self, rhs: Kilometers) -> Kilometers {
        Kilometers(Scalar { bits: difference(self@, rhs@) })
    }
}

impl Sub for Kilometers {
    type Output = Kilometers;

    fn sub(self, rhs: Kilometers) -> (r: Kilometers) {
        Kilometers(Scalar { bits: minus(self.0.bits, rhs.0.bits) })
    }
}

impl vstd::std_specs::ops::MulSpecImpl<Scalar> for Kilometers {
    open spec fn obeys_mul_spec() -> bool {
        true
    }

    open spec fn mul_req(self, rhs: Scalar) -> bool {
        true
    }

    /// The magnitude times a plain number, rounded.
    open spec fn mul_spec(self, rhs: Scalar) -> Kilometers {
        Kilometers(Scalar { bits: product(self@, rhs@) })
    }
}

impl Mul<Scalar> for Kilometers {
    type Output = Kilometers;

    fn mul(self, rhs: Scalar) -> (r: Kilometers) {
        Kilometers(Scalar { bits: multiply(self.0.bits, rhs.bits) })
    }
}

impl vstd::std_specs::ops::DivSpecImpl<Scalar> for Kilometers {
    open spec fn obeys_div_spec() -> bool {
        true
    }

    open spec fn div_req(self, rhs: Scalar) -> bool {
        true
    }

    /// The magnitude over a plain number, rounded.
    open spec fn div_spec(self, rhs: Scalar) -> Kilometers {
        Kilometers(Scalar { bits: quotient(self@, rhs@) })
    }
}

impl Div<Scalar> for Kilometers {
    type Output = Kilometers;

    fn div(self, rhs: Scalar) -> (r: Kilometers) {
        Kilometers(Scalar { bits: divide(self.0.bits, rhs.bits) })
    }
}

impl vstd::std_specs::ops::RemSpecImpl<Scalar> for Kilometers {
    open spec fn obeys_rem_spec() -> bool {
        true
    }

    open spec fn rem_req(self, rhs: Scalar) -> bool {
        true
    }

    /// What is left of the magnitude after whole multiples of a plain number.
    open spec fn rem_spec(self, rhs: Scalar) -> Kilometers {
        Kilometers(Scalar { bits: remainder(self@, rhs@) })
    }
}

impl Rem<Scalar> for Kilometers {
    type Output = Kilometers;

    fn rem(self, rhs: Scalar) -> (r: Kilometers) {
        Kilometers(Scalar { bits: modulo(self.0.bits, rhs.bits) })
    }
}

impl AddAssign for Kilometers {
    fn add_assign(&mut self, rhs: Kilometers)
        ensures
            *final(self) == Kilometers(Scalar { bits: sum(old(self)@, rhs@) }),
    {
        *self = Kilometers(Scalar { bits: plus(self.0.bits, rhs.0.bits) });
    }
}

impl SubAssign for Kilometers {
    fn sub_assign(&mut self, rhs: Kilometers)
        ensures
            *final(self) == Kilometers(Scalar { bits: difference(old(self)@, rhs@) }),
    {
        *self = Kilometers(Scalar { bits: minus(self.0.bits, rhs.0.bits) });
    }
}

impl MulAssign<Scalar> for Kilometers {
    fn mul_assign(&mut self, rhs: Scalar)
        ensures
            *final(self) == Kilometers(Scalar { bits: product(old(self)@, rhs@) }),
    {
        *self = Kilometers(Scalar { bits: multiply(self.0.bits, rhs.bits) });
    }
}

impl DivAssign<Scalar> for Kilometers {
    fn div_assign(&mut self, rhs: Scalar)
        ensures
            *final(self) == Kilometers(Scalar { bits: quotient(old(self)@, rhs@) }),
    {
        *self = Kilometers(Scalar { bits: divide(self.0.bits, rhs.bits) });
    }
}

impl RemAssign<Scalar> for Kilometers {
    fn rem_assign(&mut self, rhs: Scalar)
        ensures
            *final(self) == Kilometers(Scalar { bits: remainder(old(self)@, rhs@) }),
    {
        *self = Kilometers(Scalar { bits: modulo(self.0.bits, rhs.bits) });
    }
}

impl vstd::std_specs::convert::FromSpecImpl<Meters> for Kilometers {
    open spec fn obeys_from_spec() -> bool {
        true
    }

    /// Meters over 1000.
    open spec fn from_spec(value: Meters) -> Kilometers {
        Kilometers(Scalar { bits: quotient(value@, METERS_PER_KILOMETER) })
    }
}

impl From<Meters> for Kilometers {
    fn from(value: Meters) -> (r: Kilometers) {
        Kilometers(Scalar { bits: divide(value.0.bits, METERS_PER_KILOMETER) })
    }
}

impl vstd::std_specs::convert::FromSpecImpl<Miles> for Kilometers {
    open spec fn obeys_from_spec() -> bool {
        true
    }

    /// Miles times 1.609344.
    open spec fn from_spec(value: Miles) -> Kilometers {
        Kilometers(Scalar { bits: product(value@, KILOMETERS_PER_MILE) })
    }
}

impl From<Miles> for Kilometers {
    fn from(value: Miles) -> (r: Kilometers) {
        Kilometers(Scalar { bits: multiply(value.0.bits, KILOMETERS_PER_MILE) })
    }
}

/// A length in miles.
#[derive(Clone, Copy, Debug)]
pub struct Miles(pub Scalar);

impl View for Miles {
    type V = u64;

    /// The bit pattern of the raw scalar.
    open spec fn view(&self) -> u64 {
        self.0.bits
    }
}

impl Miles {
    /// A length of the given magnitude.
    pub fn new(value: Scalar) -> (r: Miles)
        ensures
            r == Miles(value),
    {
        Miles(value)
    }
}

impl vstd::std_specs::convert::FromSpecImpl<Scalar> for Miles {
    open spec fn obeys_from_spec() -> bool {
        true
    }

    open spec fn from_spec(value: Scalar) -> Miles {
        Miles(value)
    }
}

impl From<Scalar> for Miles {
    fn from(value: Scalar) -> (r: Miles) {
        Miles(value)
    }
}

impl AsRef<Scalar> for Miles {
    fn as_ref(&self) -> (r: &Scalar)
        ensures
            *r == self.0,
    {
        &self.0
    }
}

impl Unit for Miles {
    open spec fn raw(self) -> Scalar {
        self.0
    }

    fn value(self) -> (r: Scalar) {
        self.0
    }
}

impl vstd::std_specs::cmp::PartialEqSpecImpl for Miles {
    open spec fn obeys_eq_spec() -> bool {
        true
    }

    /// Equal magnitudes: the two zeros are equal, a NaN equals nothing.
    open spec fn eq_spec(&self, other: &Miles) -> bool {
        equal(self@, other@)
    }
}

impl PartialEq for Miles {
    fn eq(&self, other: &Miles) -> (r: bool) {
        is_equal(self.0.bits, other.0.bits)
    }
}

impl vstd::std_specs::cmp::PartialOrdSpecImpl for Miles {
    open spec fn obeys_partial_cmp_spec() -> bool {
        true
    }

    /// The order of the magnitudes; none where either is a NaN.
    open spec fn partial_cmp_spec(&self, other: &Miles) -> Option<Ordering> {
        ordering(self@, other@)
    }
}

impl PartialOrd for Miles {
    fn partial_cmp(&self, other: &Miles) -> (r: Option<Ordering>) {
        compare(self.0.bits, other.0.bits)
    }
}

impl vstd::std_specs::ops::AddSpecImpl for Miles {
    open spec fn obeys_add_spec() -> bool {
        true
    }

    open spec fn add_req(self, rhs: Miles) -> bool {
        true
    }

    /// The sum of the two magnitudes, rounded.
    open spec fn add_spec(self, rhs: Miles) -> Miles {
        Miles(Scalar { bits: sum(self@, rhs@) })
    }
}

impl Add for Miles {
    type Output = Miles;

    fn add(self, rhs: Miles) -> (r: Miles) {
        Miles(Scalar { bits: plus(self.0.bits, rhs.0.bits) })
    }
}

impl vstd::std_specs::ops::SubSpecImpl for Miles {
    open spec fn obeys_sub_spec() -> bool {
        true
    }

    open spec fn sub_req(self, rhs: Miles) -> bool {
        true
    }

    /// The difference of the two magnitudes, rounded.
    open spec fn sub_spec(self, rhs: Miles) -> Miles {
        Miles(Scalar { bits: difference(self@, rhs@) })
    }
}

impl Sub for Miles {
    type Output = Miles;

    fn sub(self, rhs: Miles) -> (r: Miles) {
        Miles(Scalar { bits: minus(self.0.bits, rhs.0.bits) })
    }
}

impl vstd::std_specs::ops::MulSpecImpl<Scalar> for Miles {
    open spec fn obeys_mul_spec() -> bool {
        true
    }

    open spec fn mul_req(self, rhs: Scalar) -> bool {
        true
    }

    /// The magnitude times a plain number, rounded.
    open spec fn mul_spec(self, rhs: Scalar) -> Miles {
        Miles(Scalar { bits: product(self@, rhs@) })
    }
}

impl Mul<Scalar> for Miles {
    type Output = Miles;

    fn mul(self, rhs: Scalar) -> (r: Miles) {
        Miles(Scalar { bits: multiply(self.0.bits, rhs.bits) })
    }
}

impl vstd::std_specs::ops::DivSpecImpl<Scalar> for Miles {
    open spec fn obeys_div_spec() -> bool {
        true
    }

    open spec fn div_req(self, rhs: Scalar) -> bool {
        true
    }

    /// The magnitude over a plain number, rounded.
    open spec fn div_spec(self, rhs: Scalar) -> Miles {
        Miles(Scalar { bits: quotient(self@, rhs@) })
    }
}

impl Div<Scalar> for Miles {
    type Output = Miles;

    fn div(self, rhs: Scalar) -> (r: Miles) {
        Miles(Scalar { bits: divide(self.0.bits, rhs.bits) })
    }
}

impl vstd::std_specs::ops::RemSpecImpl<Scalar> for Miles {
    open spec fn obeys_rem_spec() -> bool {
        true
    }

    open spec fn rem_req(self, rhs: Scalar) -> bool {
        true
    }

    /// What is left of the magnitude after whole multiples of a plain number.
    open spec fn rem_spec(self, rhs: Scalar) -> Miles {
        Miles(Scalar { bits: remainder(self@, rhs@) })
    }
}

impl Rem<Scalar> for Miles {
    type Output = Miles;

    fn rem(self, rhs: Scalar) -> (r: Miles) {
        Miles(Scalar { bits: modulo(self.0.bits, rhs.bits) })
    }
}

impl AddAssign for Miles {
    fn add_assign(&mut self, rhs: Miles)
        ensures
            *final(self) == Miles(Scalar { bits: sum(old(self)@, rhs@) }),
    {
        *self = Miles(Scalar { bits: plus(self.0.bits, rhs.0.bits) });
    }
}

impl SubAssign for Miles {
    fn sub_assign(&mut self, rhs: Miles)
        ensures
            *final(self) == Miles(Scalar { bits: difference(old(self)@, rhs@) }),
    {
        *self = Miles(Scalar { bits: minus(self.0.bits, rhs.0.bits) });
    }
}

impl MulAssign<Scalar> for Miles {
    fn mul_assign(&mut self, rhs: Scalar)
        ensures
            *final(self) == Miles(Scalar { bits: product(old(self)@, rhs@) }),
    {
        *self = Miles(Scalar { bits: multiply(self.0.bits, rhs.bits) });
    }
}

impl DivAssign<Scalar> for Miles {
    fn div_assign(&mut self, rhs: Scalar)
        ensures
            *final(self) == Miles(Scalar { bits: quotient(old(self)@, rhs@) }),
    {
        *self = Miles(Scalar { bits: divide(self.0.bits, rhs.bits) });
    }
}

impl RemAssign<Scalar> for Miles {
    fn rem_assign(&mut self, rhs: Scalar)
        ensures
            *final(self) == Miles(Scalar { bits: remainder(old(self)@, rhs@) }),
    {
        *self = Miles(Scalar { bits: modulo(self.0.bits, rhs.bits) });
    }
}

impl vstd::std_specs::convert::FromSpecImpl<Meters> for Miles {
    open spec fn obeys_from_spec() -> bool {
        true
    }

    /// Meters over 1609.344.
    open spec fn from_spec(value: Meters) -> Miles {
        Miles(Scalar { bits: quotient(value@, METERS_PER_MILE) })
    }
}

impl From<Meters> for Miles {
    fn from(value: Meters) -> (r: Miles) {
        Miles(Scalar { bits: divide(value.0.bits, METERS_PER_MILE) })
    }
}

impl vstd::std_specs::convert::FromSpecImpl<Kilometers> for Miles {
    open spec fn obeys_from_spec() -> bool {
        true
    }

    /// Kilometers over 1.609344.
    open spec fn from_spec(value: Kilometers) -> Miles {
        Miles(Scalar { bits: quotient(value@, KILOMETERS_PER_MILE) })
    }
}

impl From<Kilometers> for Miles {
    fn from(value: Kilometers) -> (r: Miles) {
        Miles(Scalar { bits: divide(value.0.bits, KILOMETERS_PER_MILE) })
    }
}

impl Length for Meters {
    open spec fn in_meters(self) -> Meters {
        self
    }

    open spec fn in_kilometers(self) -> Kilometers {
        Kilometers::from_spec(self)
    }

    open spec fn in_miles(self) -> Miles {
        Miles::from_spec(self)
    }

    fn meters(self) -> (r: Meters) {
        self
    }

    fn kilometers(self) -> (r: Kilometers) {
        Kilometers::from(self)
    }

    fn miles(self) -> (r: Miles) {
        Miles::from(self)
    }
}

impl Length for Kilometers {
    open spec fn in_meters(self) -> Meters {
        Meters::from_spec(self)
    }

    open spec fn in_kilometers(self) -> Kilometers {
        self
    }

    open spec fn in_miles(self) -> Miles {
        Miles::from_spec(self)
    }

    fn meters(self) -> (r: Meters) {
        Meters::from(self)
    }

    fn kilometers(self) -> (r: Kilometers) {
        self
    }

    fn miles(self) -> (r: Miles) {
        Miles::from(self)
    }
}

impl Length for Miles {
    open spec fn in_meters(self) -> Meters {
        Meters::from_spec(self)
    }

    open spec fn in_kilometers(self) -> Kilometers {
        Kilometers::from_spec(self)
    }

    open spec fn in_miles(self) -> Miles {
        self
    }

    fn meters(self) -> (r: Meters) {
        Meters::from(self)
    }

    fn kilometers(self) -> (r: Kilometers) {
        Kilometers::from(self)
    }

    fn miles(self) -> (r: Miles) {
        self
    }
}

} // verus!

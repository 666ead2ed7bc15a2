//! The raw scalar of every quantity: a binary64 number.
//!
//! A `Scalar` holds the bit pattern of an IEEE 754 binary64 number. Its
//! arithmetic rounds to nearest, ties to even; its order is that of the
//! values, in which the two zeros are equal and a NaN stands apart.

use vstd::prelude::*;
use std::cmp::Ordering;
use std::ops::{
    Add, AddAssign, Div, DivAssign, Mul, MulAssign, Rem, RemAssign, Sub, SubAssign,
};
use crate::binary64::divide::{divide, quotient};
use crate::binary64::multiply::{multiply, product};
use crate::binary64::order::{equal, ordering, is_equal, compare};
use crate::binary64::remainder::{modulo, remainder};
use crate::binary64::sum::{plus, minus, sum, difference};

verus! {

/// A binary64 number, held as its bit pattern.
#[derive(Clone, Copy, Debug)]
pub struct Scalar {
    pub bits: u64,
}

impl View for Scalar {
    type V = u64;

    /// The bit pattern.
    open spec fn view(&self) -> u64 {
        self.bits
    }
}

impl Scalar {
    /// The number with the given bit pattern.
    pub fn from_bits(bits: u64) -> (r: Scalar)
        ensures
            r@ == bits,
    {
        Scalar { bits }
    }

    /// The bit pattern of the number.
    pub fn to_bits(self) -> (r: u64)
        ensures
            r == self@,
    {
        self.bits
    }
}

impl vstd::std_specs::cmp::PartialEqSpecImpl for Scalar {
    open spec fn obeys_eq_spec() -> bool {
        true
    }

    /// Equal values: the two zeros are equal, a NaN equals nothing.
    open spec fn eq_spec(&self, other: &Scalar) -> bool {
        equal(self.bits, other.bits)
    }
}

impl PartialEq for Scalar {
    fn eq(&self, other: &Scalar) -> (r: bool) {
        is_equal(self.bits, other.bits)
    }
}

impl vstd::std_specs::cmp::PartialOrdSpecImpl for Scalar {
    open spec fn obeys_partial_cmp_spec() -> bool {
        true
    }

    /// The order of the values; none where either is a NaN.
    open spec fn partial_cmp_spec(&self, other: &Scalar) -> Option<Ordering> {
        ordering(self.bits, other.bits)
    }
}

impl PartialOrd for Scalar {
    fn partial_cmp(&self, other: &Scalar) -> (r: Option<Ordering>) {
        compare(self.bits, other.bits)
    }
}

impl vstd::std_specs::ops::AddSpecImpl for Scalar {
    open spec fn obeys_add_spec() -> bool {
        true
    }

    open spec fn add_req(self, rhs: Scalar) -> bool {
        true
    }

    /// The exact sum, rounded.
    open spec fn add_spec(self, rhs: Scalar) -> Scalar {
        Scalar { bits: sum(self.bits, rhs.bits) }
    }
}

impl Add for Scalar {
    type Output = Scalar;

    fn add(self, rhs: Scalar) -> (r: Scalar) {
        Scalar { bits: plus(self.bits, rhs.bits) }
    }
}

impl vstd::std_specs::ops::SubSpecImpl for Scalar {
    open spec fn obeys_sub_spec() -> bool {
        true
    }

    open spec fn sub_req(self, rhs: Scalar) -> bool {
        true
    }

    /// The exact difference, rounded.
    open spec fn sub_spec(self, rhs: Scalar) -> Scalar {
        Scalar { bits: difference(self.bits, rhs.bits) }
    }
}

impl Sub for Scalar {
    type Output = Scalar;

    fn sub(self, rhs: Scalar) -> (r: Scalar) {
        Scalar { bits: minus(self.bits, rhs.bits) }
    }
}

impl vstd::std_specs::ops::MulSpecImpl for Scalar {
    open spec fn obeys_mul_spec() -> bool {
        true
    }

    open spec fn mul_req(self, rhs: Scalar) -> bool {
        true
    }

    /// The exact product, rounded.
    open spec fn mul_spec(self, rhs: Scalar) -> Scalar {
        Scalar { bits: product(self.bits, rhs.bits) }
    }
}

impl Mul for Scalar {
    type Output = Scalar;

    fn mul(self, rhs: Scalar) -> (r: Scalar) {
        Scalar { bits: multiply(self.bits, rhs.bits) }
    }
}

impl vstd::std_specs::ops::DivSpecImpl for Scalar {
    open spec fn obeys_div_spec() -> bool {
        true
    }

    open spec fn div_req(self, rhs: Scalar) -> bool {
        true
    }

    /// The exact quotient, rounded.
    open spec fn div_spec(self, rhs: Scalar) -> Scalar {
        Scalar { bits: quotient(self.bits, rhs.bits) }
    }
}

impl Div for Scalar {
    type Output = Scalar;

    fn div(self, rhs: Scalar) -> (r: Scalar) {
        Scalar { bits: divide(self.bits, rhs.bits) }
    }
}

impl vstd::std_specs::ops::RemSpecImpl for Scalar {
    open spec fn obeys_rem_spec() -> bool {
        true
    }

    open spec fn rem_req(self, rhs: Scalar) -> bool {
        true
    }

    /// The remainder of the division that truncates its quotient.
    open spec fn rem_spec(self, rhs: Scalar) -> Scalar {
        Scalar { bits: remainder(self.bits, rhs.bits) }
    }
}

impl Rem for Scalar {
    type Output = Scalar;

    fn rem(self, rhs: Scalar) -> (r: Scalar) {
        Scalar { bits: modulo(self.bits, rhs.bits) }
    }
}

impl AddAssign for Scalar {
    fn add_assign(&mut self, rhs: Scalar)
        ensures
            final(self)@ == sum(old(self)@, rhs@),
    {
        *self = Scalar { bits: plus(self.bits, rhs.bits) };
    }
}

impl SubAssign for Scalar {
    fn sub_assign(&mut self, rhs: Scalar)
        ensures
            final(self)@ == difference(old(self)@, rhs@),
    {
        *self = Scalar { bits: minus(self.bits, rhs.bits) };
    }
}

impl MulAssign for Scalar {
    fn mul_assign(&mut self, rhs: Scalar)
        ensures
            final(self)@ == product(old(self)@, rhs@),
    {
        *self = Scalar { bits: multiply(self.bits, rhs.bits) };
    }
}

impl DivAssign for Scalar {
    fn div_assign(&mut self, rhs: Scalar)
        ensures
            final(self)@ == quotient(old(self)@, rhs@),
    {
        *self = Scalar { bits: divide(self.bits, rhs.bits) };
    }
}

impl RemAssign for Scalar {
    fn rem_assign(&mut self, rhs: Scalar)
        ensures
            final(self)@ == remainder(old(self)@, rhs@),
    {
        *self = Scalar { bits: modulo(self.bits, rhs.bits) };
    }
}

} // verus!

//! The links between lengths, areas and volumes: the products do not depend
//! on the order of their operands, and a division takes back what a
//! multiplication put in, up to the rounding of the two.

use vstd::prelude::*;
use vstd::std_specs::cmp::PartialEqSpec;
use vstd::std_specs::ops::{MulSpec, DivSpec};
use crate::area::SquareMeters;
use crate::binary64::format::is_nan;
use crate::binary64::multiply::{product, lemma_product_commutes};
use crate::binary64::tolerance::{close, lemma_product_then_quotient};
use crate::laws::factors::moderate;
use crate::length::Meters;

verus! {

/// The area of `a` by `b` is that of `b` by `a`: the same value, and equal
/// to it unless it is a NaN.
pub proof fn area_commutes(a: Meters, b: Meters)
    ensures
        a.mul_spec(b) == b.mul_spec(a),
        !is_nan(product(a@, b@)) ==> a.mul_spec(b).eq_spec(&b.mul_spec(a)),
{
    lemma_product_commutes(a@, b@);
}

/// The volume of an area by a length is that of the length by the area: the
/// same value, and equal to it unless it is a NaN.
pub proof fn volume_commutes(s: SquareMeters, a: Meters)
    ensures
        s.mul_spec(a) == a.mul_spec(s),
        !is_nan(product(s@, a@)) ==> s.mul_spec(a).eq_spec(&a.mul_spec(s)),
{
    lemma_product_commutes(s@, a@);
}

/// The area of `a` by `b`, over `a`, is `b` within 4 parts in 2^52.
pub proof fn area_over_first_length(a: Meters, b: Meters)
    requires
        moderate(a@),
        moderate(b@),
    ensures
        close(a.mul_spec(b).div_spec(a)@, b@, 4),
{
    lemma_product_commutes(a@, b@);
    lemma_product_then_quotient(b@, a@, 774, 1374, 774, 1374);
}

/// The area of `a` by `b`, over `b`, is `a` within 4 parts in 2^52.
pub proof fn area_over_second_length(a: Meters, b: Meters)
    requires
        moderate(a@),
        moderate(b@),
    ensures
        close(a.mul_spec(b).div_spec(b)@, a@, 4),
{
    lemma_product_then_quotient(a@, b@, 774, 1374, 774, 1374);
}

/// The volume of `s` by `a`, over `a`, is `s` within 4 parts in 2^52.
pub proof fn volume_over_length(s: SquareMeters, a: Meters)
    requires
        moderate(s@),
        moderate(a@),
    ensures
        close(s.mul_spec(a).div_spec(a)@, s@, 4),
{
    lemma_product_then_quotient(s@, a@, 774, 1374, 774, 1374);
}

/// The volume of `s` by `a`, over `s`, is `a` within 4 parts in 2^52.
pub proof fn volume_over_area(s: SquareMeters, a: Meters)
    requires
        moderate(s@),
        moderate(a@),
    ensures
        close(s.mul_spec(a).div_spec(s)@, a@, 4),
{
    lemma_product_commutes(s@, a@);
    lemma_product_then_quotient(a@, s@, 774, 1374, 774, 1374);
}

} // verus!

use quantities::scalar::Scalar;
use std::cmp::Ordering;

fn s(x: f64) -> Scalar {
    Scalar::from_bits(x.to_bits())
}

fn f(x: Scalar) -> f64 {
    f64::from_bits(x.to_bits())
}

#[test]
fn a_scalar_holds_its_bit_pattern() {
    for &bits in &[0u64, 1, 0x3ff0_0000_0000_0000, 0x8000_0000_0000_0000, 0x7ff8_0000_0000_0001, u64::MAX] {
        assert_eq!(Scalar::from_bits(bits).to_bits(), bits);
        assert_eq!(Scalar::from_bits(bits).bits, bits);
    }
}

#[test]
fn scalar_arithmetic_rounds_as_the_machine_does() {
    let values = [0.0, -0.0, 1.0, 0.1, 0.2, 0.3, -7.5, 3.0, 1e-310, 1e308, 2.5e-308, 123456789.125];
    for &x in &values {
        for &y in &values {
            assert_eq!((s(x) + s(y)).to_bits(), (x + y).to_bits());
            assert_eq!((s(x) - s(y)).to_bits(), (x - y).to_bits());
            assert_eq!((s(x) * s(y)).to_bits(), (x * y).to_bits());
            if !(x / y).is_nan() {
                assert_eq!((s(x) / s(y)).to_bits(), (x / y).to_bits());
            }
            if !(x % y).is_nan() {
                assert_eq!((s(x) % s(y)).to_bits(), (x % y).to_bits());
            }
        }
    }
}

#[test]
fn the_sum_of_a_tenth_and_two_tenths_is_not_three_tenths() {
    assert_eq!((s(0.1) + s(0.2)).to_bits(), 0x3fd3_3333_3333_3334);
    assert_eq!(s(0.3).to_bits(), 0x3fd3_3333_3333_3333);
    assert!(s(0.1) + s(0.2) != s(0.3));
    assert!(s(0.3) < s(0.1) + s(0.2));
}

#[test]
fn one_third_rounds_to_nearest() {
    assert_eq!((s(1.0) / s(3.0)).to_bits(), 0x3fd5_5555_5555_5555);
    assert_eq!((s(2.0) / s(3.0)).to_bits(), 0x3fe5_5555_5555_5555);
}

#[test]
fn a_tie_goes_to_the_even_significand() {
    // 2^53 + 1 lies midway between 2^53 and 2^53 + 2
    assert_eq!(f(s(9007199254740992.0) + s(1.0)), 9007199254740992.0);
    // 2^53 + 3 lies midway between 2^53 + 2 and 2^53 + 4
    assert_eq!(f(s(9007199254740994.0) + s(1.0)), 9007199254740996.0);
    // the smallest subnormal halves to zero, three of them halve to two
    assert_eq!((s(5e-324) / s(2.0)).to_bits(), 0);
    assert_eq!((s(1.5e-323) / s(2.0)).to_bits(), 2);
}

#[test]
fn the_largest_finite_number_overflows_to_infinity() {
    assert_eq!(f(s(f64::MAX) * s(2.0)), f64::INFINITY);
    assert_eq!(f(s(f64::MAX) + s(f64::MAX)), f64::INFINITY);
    assert_eq!(f(s(-f64::MAX) - s(f64::MAX)), f64::NEG_INFINITY);
    assert_eq!(f(s(f64::MAX) + s(1.0)), f64::MAX);
    assert_eq!(f(s(f64::MAX) + s(9.979201547673598e291)), f64::MAX);
    assert_eq!(f(s(f64::MAX) + s(9.9792015476736e291)), f64::INFINITY);
    assert_eq!(f(s(1.0) / s(5e-324)), f64::INFINITY);
}

#[test]
fn the_operations_produce_one_nan() {
    let nan = 0x7ff8_0000_0000_0000u64;
    assert_eq!((s(0.0) / s(0.0)).to_bits(), nan);
    assert_eq!((s(f64::INFINITY) - s(f64::INFINITY)).to_bits(), nan);
    assert_eq!((s(f64::INFINITY) + s(f64::NEG_INFINITY)).to_bits(), nan);
    assert_eq!((s(f64::INFINITY) * s(0.0)).to_bits(), nan);
    assert_eq!((s(f64::INFINITY) / s(f64::NEG_INFINITY)).to_bits(), nan);
    assert_eq!((s(f64::INFINITY) % s(2.0)).to_bits(), nan);
    assert_eq!((s(2.0) % s(0.0)).to_bits(), nan);
    let other = Scalar::from_bits(0xfff0_0000_0000_0123);
    assert_eq!((other + s(1.0)).to_bits(), nan);
    assert_eq!((s(1.0) - other).to_bits(), nan);
    assert_eq!((other * s(1.0)).to_bits(), nan);
    assert_eq!((s(1.0) / other).to_bits(), nan);
    assert_eq!((other % s(1.0)).to_bits(), nan);
}

#[test]
fn the_zeros_keep_their_signs() {
    assert_eq!((s(0.0) + s(-0.0)).to_bits(), 0.0f64.to_bits());
    assert_eq!((s(-0.0) + s(-0.0)).to_bits(), (-0.0f64).to_bits());
    assert_eq!((s(1.0) - s(1.0)).to_bits(), 0.0f64.to_bits());
    assert_eq!((s(-1.0) + s(1.0)).to_bits(), 0.0f64.to_bits());
    assert_eq!((s(-0.0) - s(0.0)).to_bits(), (-0.0f64).to_bits());
    assert_eq!((s(-2.0) * s(0.0)).to_bits(), (-0.0f64).to_bits());
    assert_eq!((s(0.0) / s(-3.0)).to_bits(), (-0.0f64).to_bits());
    assert_eq!((s(3.0) / s(f64::NEG_INFINITY)).to_bits(), (-0.0f64).to_bits());
    assert_eq!(f(s(3.0) / s(-0.0)), f64::NEG_INFINITY);
    assert_eq!((s(-0.0) % s(3.0)).to_bits(), (-0.0f64).to_bits());
}

#[test]
fn the_remainder_is_exact() {
    assert_eq!(f(s(1e300) % s(7.0)), 1e300 % 7.0);
    assert_eq!(f(s(1e300) % s(1e-300)), 1e300 % 1e-300);
    assert_eq!(f(s(5.5) % s(1e300)), 5.5);
    assert_eq!(f(s(-1e22) % s(3.0)), -1e22 % 3.0);
    assert_eq!(f(s(1.0) % s(5e-324)), 0.0);
    assert_eq!(f(s(7e-310) % s(3e-310)), 7e-310 % 3e-310);
    assert_eq!(f(s(f64::MAX) % s(5e-324)), 0.0);
}

#[test]
fn scalars_compare_by_value() {
    assert_eq!(s(1.0).partial_cmp(&s(2.0)), Some(Ordering::Less));
    assert_eq!(s(2.0).partial_cmp(&s(1.0)), Some(Ordering::Greater));
    assert_eq!(s(2.0).partial_cmp(&s(2.0)), Some(Ordering::Equal));
    assert_eq!(s(0.0).partial_cmp(&s(-0.0)), Some(Ordering::Equal));
    assert_eq!(s(f64::NAN).partial_cmp(&s(1.0)), None);
    assert_eq!(s(1.0).partial_cmp(&s(f64::NAN)), None);
    assert!(s(-1.0) < s(-0.5));
    assert!(s(-1e-320) < s(0.0));
    assert!(s(f64::NEG_INFINITY) < s(-f64::MAX));
    assert!(s(f64::MAX) < s(f64::INFINITY));
    assert!(s(0.0) == s(-0.0));
    assert!(s(f64::NAN) != s(f64::NAN));
    assert!(s(f64::INFINITY) == s(f64::INFINITY));
    assert!(s(1.0) <= s(1.0) && s(1.0) >= s(1.0));
}

#[test]
fn scalar_compound_assignment_replaces_the_value() {
    let mut x = s(0.1);
    x += s(0.2);
    assert_eq!(f(x), 0.1 + 0.2);
    x -= s(1.0);
    assert_eq!(f(x), 0.1 + 0.2 - 1.0);
    x *= s(-3.0);
    assert_eq!(f(x), (0.1 + 0.2 - 1.0) * -3.0);
    x /= s(7.0);
    assert_eq!(f(x), (0.1 + 0.2 - 1.0) * -3.0 / 7.0);
    x %= s(0.25);
    assert_eq!(f(x), ((0.1 + 0.2 - 1.0) * -3.0 / 7.0) % 0.25);
}

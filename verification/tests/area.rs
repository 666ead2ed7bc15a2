use quantities::area::{Area, SquareMeters};
use quantities::length::Meters;
use quantities::scalar::Scalar;
use quantities::Unit;

fn s(x: f64) -> Scalar {
    Scalar::from_bits(x.to_bits())
}

fn f(x: Scalar) -> f64 {
    f64::from_bits(x.to_bits())
}

const PART: f64 = 1.0 / 4503599627370496.0;

#[test]
fn area() {
    let a = Meters::from(s(2.0));
    let b = Meters::from(s(3.0));
    let c = SquareMeters::from(s(6.0));
    assert_eq!(a * b, c);
    assert_eq!(c / a, b);
    assert_eq!(c / b, a);
}

#[test]
fn an_area_is_the_product_of_the_magnitudes() {
    for &(x, y) in &[(2.0, 3.0), (0.1, 0.2), (-4.5, 1e10), (1e200, 1e200), (1e-200, 1e-200), (0.0, -7.0)] {
        let got = Meters::from(s(x)) * Meters::from(s(y));
        assert_eq!(got.value().to_bits(), (x * y).to_bits());
        let back = SquareMeters::from(s(x)) / Meters::from(s(y));
        assert_eq!(back.value().to_bits(), (x / y).to_bits());
    }
}

#[test]
fn the_area_does_not_depend_on_the_order_of_the_lengths() {
    for &(x, y) in &[(2.0, 3.0), (0.1, 0.7), (-4.5, 1e10), (1e-170, 3e-170), (f64::INFINITY, 0.0)] {
        let ab = Meters::from(s(x)) * Meters::from(s(y));
        let ba = Meters::from(s(y)) * Meters::from(s(x));
        assert_eq!(ab.value().to_bits(), ba.value().to_bits());
    }
    assert_eq!(Meters::from(s(0.1)) * Meters::from(s(0.7)), Meters::from(s(0.7)) * Meters::from(s(0.1)));
}

#[test]
fn dividing_an_area_by_one_length_gives_the_other_within_tolerance() {
    let mut x = 1.0e-90f64;
    while x < 1.0e90 {
        let mut y = 3.0e-90f64;
        while y < 1.0e90 {
            let a = Meters::from(s(x));
            let b = Meters::from(s(-y));
            let area = a * b;
            assert!((f((area / a).value()) + y).abs() <= 4.0 * PART * y);
            assert!((f((area / b).value()) - x).abs() <= 4.0 * PART * x);
            y *= 977.3;
        }
        x *= 1313.1;
    }
}

#[test]
fn area_arithmetic_is_that_of_the_magnitudes() {
    let a = SquareMeters::new(s(10.0));
    let b = SquareMeters::from(s(4.0));
    assert_eq!(f((a + b).value()), 14.0);
    assert_eq!(f((a - b).value()), 6.0);
    assert_eq!(f((a * s(0.5)).value()), 5.0);
    assert_eq!(f((a / s(4.0)).value()), 2.5);
    assert_eq!(f((a % s(4.0)).value()), 2.0);
    assert!(b < a);
    assert_eq!(a.square_meters(), a);
    let r: &Scalar = a.as_ref();
    assert_eq!(f(*r), 10.0);
}

#[test]
fn area_compound_assignment_replaces_the_value() {
    let mut a = SquareMeters::new(s(9.0));
    a += SquareMeters::new(s(1.0));
    a -= SquareMeters::new(s(4.0));
    a *= s(5.0);
    a /= s(4.0);
    assert_eq!(f(a.value()), 7.5);
    a %= s(2.0);
    assert_eq!(f(a.value()), 1.5);
}

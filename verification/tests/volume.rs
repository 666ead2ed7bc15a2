use quantities::area::SquareMeters;
use quantities::length::Meters;
use quantities::scalar::Scalar;
use quantities::volume::{CubicMeters, Volume};
use quantities::Unit;

fn s(x: f64) -> Scalar {
    Scalar::from_bits(x.to_bits())
}

fn f(x: Scalar) -> f64 {
    f64::from_bits(x.to_bits())
}

const PART: f64 = 1.0 / 4503599627370496.0;

#[test]
fn volume() {
    let a = Meters::from(s(2.0));
    let b = SquareMeters::from(s(4.0));
    let c = CubicMeters::from(s(8.0));
    assert_eq!(a * a, b);
    assert_eq!(b * a, c);
    assert_eq!(a * b, c);
    assert_eq!(c / a, b);
    assert_eq!(c / b, a);
}

#[test]
fn a_volume_is_the_product_of_the_magnitudes() {
    for &(x, y) in &[(4.0, 2.0), (0.1, 0.2), (-4.5, 1e10), (1e200, 1e200), (1e-200, 1e-200)] {
        let one = SquareMeters::from(s(x)) * Meters::from(s(y));
        let other = Meters::from(s(y)) * SquareMeters::from(s(x));
        assert_eq!(one.value().to_bits(), (x * y).to_bits());
        assert_eq!(other.value().to_bits(), (x * y).to_bits());
        let area = CubicMeters::from(s(x)) / Meters::from(s(y));
        assert_eq!(area.value().to_bits(), (x / y).to_bits());
        let length = CubicMeters::from(s(x)) / SquareMeters::from(s(y));
        assert_eq!(length.value().to_bits(), (x / y).to_bits());
    }
}

#[test]
fn dividing_a_volume_gives_back_its_area_and_its_length_within_tolerance() {
    let mut x = 1.0e-90f64;
    while x < 1.0e90 {
        let mut y = 3.0e-90f64;
        while y < 1.0e90 {
            let area = SquareMeters::from(s(x));
            let length = Meters::from(s(y));
            let v = area * length;
            assert!((f((v / length).value()) - x).abs() <= 4.0 * PART * x);
            assert!((f((v / area).value()) - y).abs() <= 4.0 * PART * y);
            y *= 977.3;
        }
        x *= 1313.1;
    }
}

#[test]
fn volume_arithmetic_is_that_of_the_magnitudes() {
    let a = CubicMeters::new(s(10.0));
    let b = CubicMeters::from(s(4.0));
    assert_eq!(f((a + b).value()), 14.0);
    assert_eq!(f((a - b).value()), 6.0);
    assert_eq!(f((a * s(0.5)).value()), 5.0);
    assert_eq!(f((a / s(4.0)).value()), 2.5);
    assert_eq!(f((a % s(4.0)).value()), 2.0);
    assert!(b < a);
    assert_eq!(a.square_meters(), a);
    let mut c = a;
    c += b;
    c -= CubicMeters::new(s(2.0));
    c *= s(3.0);
    c /= s(8.0);
    assert_eq!(f(c.value()), 4.5);
    c %= s(2.0);
    assert_eq!(f(c.value()), 0.5);
    assert_eq!(f(a.value()), 10.0);
}

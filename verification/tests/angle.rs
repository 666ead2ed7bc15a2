use quantities::angle::{Angle, Degrees, Radians};
use quantities::scalar::Scalar;
use quantities::Unit;
use std::f64::consts::PI;

fn s(x: f64) -> Scalar {
    Scalar::from_bits(x.to_bits())
}

fn f(x: Scalar) -> f64 {
    f64::from_bits(x.to_bits())
}

fn sin<A: Angle>(a: A) -> f64 {
    f(a.radians().value()).sin()
}

fn cos<A: Angle>(a: A) -> f64 {
    f(a.radians().value()).cos()
}

fn tan<A: Angle>(a: A) -> f64 {
    f(a.radians().value()).tan()
}

#[test]
fn angles() {
    let a = Degrees::from(s(90.0));
    let b = Radians::from(s(PI));
    assert_eq!(a * s(2.0), b.into());
    assert_eq!(a * s(4.0), (b * s(2.0)).into());
}

#[test]
fn trigonometry() {
    let a = Degrees::from(s(30.0));
    let b = Radians::from(s(PI / 2.0));
    assert!(sin(a) - 0.5 < (10f64.powf(-10.0)));
    assert!(cos(a * s(2.0)) - 0.5 < (10f64.powf(-10.0)));
    assert!(sin(b) - 1.0 < (10f64.powf(-10.0)));
    assert!(cos(b) < (10f64.powf(-10.0)));
}

#[test]
fn trigonometric_values_lie_within_tolerance_on_both_sides() {
    let tolerance = 1e-10;
    assert!((sin(Degrees::from(s(30.0))) - 0.5).abs() < tolerance);
    assert!((cos(Degrees::from(s(60.0))) - 0.5).abs() < tolerance);
    assert!((sin(Radians::from(s(PI / 2.0))) - 1.0).abs() < tolerance);
    assert!(cos(Radians::from(s(PI / 2.0))).abs() < tolerance);
    assert!((tan(Degrees::from(s(45.0))) - 1.0).abs() < tolerance);
}

#[test]
fn radians_to_degrees_multiplies_by_180_then_divides_by_pi() {
    for &x in &[0.0, 1.0, -2.5, PI, PI / 3.0, 1e-300, 1e300, 123456.789] {
        let got: Degrees = Radians::from(s(x)).into();
        assert_eq!(got.value().to_bits(), (x * 180.0 / PI).to_bits());
        assert_eq!(Radians::from(s(x)).degrees().value().to_bits(), (x * 180.0 / PI).to_bits());
    }
}

#[test]
fn degrees_to_radians_multiplies_by_pi_then_divides_by_180() {
    for &x in &[0.0, 1.0, -2.5, 30.0, 90.0, 360.0, 1e-300, 1e300, 123456.789] {
        let got: Radians = Degrees::from(s(x)).into();
        assert_eq!(got.value().to_bits(), (x * PI / 180.0).to_bits());
        assert_eq!(Degrees::from(s(x)).radians().value().to_bits(), (x * PI / 180.0).to_bits());
    }
}

#[test]
fn an_angle_in_its_own_unit_is_unchanged() {
    let d = Degrees::from(s(12.5));
    let r = Radians::from(s(0.75));
    assert_eq!(d.degrees().value().to_bits(), 12.5f64.to_bits());
    assert_eq!(r.radians().value().to_bits(), 0.75f64.to_bits());
}

#[test]
fn half_a_turn_in_degrees_is_exactly_180() {
    let d: Degrees = Radians::from(s(PI)).into();
    assert_eq!(f(d.value()), 180.0);
}

#[test]
fn angle_arithmetic_is_that_of_the_magnitudes() {
    let a = Degrees::from(s(90.0));
    let b = Degrees::from(s(22.5));
    assert_eq!(f((a + b).value()), 112.5);
    assert_eq!(f((a - b).value()), 67.5);
    assert_eq!(f((a * s(1.5)).value()), 135.0);
    assert_eq!(f((a / s(8.0)).value()), 11.25);
    assert_eq!(f((a % s(40.0)).value()), 10.0);
    assert!(b < a);
    assert!(a >= b);
    assert!(a != b);
}

#[test]
fn angle_compound_assignment_replaces_the_value() {
    let mut a = Radians::new(s(1.0));
    a += Radians::new(s(0.5));
    assert_eq!(f(a.value()), 1.5);
    a -= Radians::new(s(1.0));
    assert_eq!(f(a.value()), 0.5);
    a *= s(6.0);
    assert_eq!(f(a.value()), 3.0);
    a /= s(4.0);
    assert_eq!(f(a.value()), 0.75);
    a %= s(0.5);
    assert_eq!(f(a.value()), 0.25);

    let mut d = Degrees::new(s(10.0));
    d += Degrees::new(s(0.1));
    assert_eq!(f(d.value()), 10.0 + 0.1);
    d -= Degrees::new(s(0.3));
    assert_eq!(f(d.value()), 10.0 + 0.1 - 0.3);
    d *= s(3.0);
    assert_eq!(f(d.value()), (10.0 + 0.1 - 0.3) * 3.0);
    d /= s(7.0);
    assert_eq!(f(d.value()), (10.0 + 0.1 - 0.3) * 3.0 / 7.0);
}

#[test]
fn degrees_through_radians_and_back_stay_within_tolerance() {
    let mut x = 1.0e-250f64;
    while x < 1.0e250 {
        let back = f(Degrees::from(s(x)).radians().degrees().value());
        assert!((back - x).abs() <= x * 8.0 / 4503599627370496.0, "{}", x);
        let back = f(Radians::from(s(-x)).degrees().radians().value());
        assert!((back + x).abs() <= x * 8.0 / 4503599627370496.0, "{}", x);
        x *= 1.7320508;
    }
}

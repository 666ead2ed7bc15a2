use quantities::length::{Kilometers, Length, Meters, Miles};
use quantities::scalar::Scalar;
use quantities::Unit;

fn s(x: f64) -> Scalar {
    Scalar::from_bits(x.to_bits())
}

fn f(x: Scalar) -> f64 {
    f64::from_bits(x.to_bits())
}

const PART: f64 = 1.0 / 4503599627370496.0;

#[test]
fn comparison() {
    let a: Meters = s(1400.0).into();
    let b: Kilometers = s(700.0).into();
    assert_eq!(Kilometers::from(s(1.4)), a.into());
    assert_eq!(Meters::from(s(700000.0)), b.into());
    assert!(a < b.into());
    assert!(b > a.into());
}

#[test]
fn arithmetic() {
    let a = Meters::from(s(2.0));
    let b = Meters::from(s(3.0));
    assert_eq!(a + b, Meters::from(s(5.0)));
    assert_eq!(b - a, Meters::from(s(1.0)));
    assert_eq!(a * s(3.0), Meters::from(s(6.0)));
    assert_eq!(b / s(2.0), Meters::from(s(1.5)));
}

#[test]
fn conversion() {
    let a = Meters::from(s(200.0));
    let b = Kilometers::from(s(2.0));
    assert_eq!(a + b.into(), Meters::from(s(2200.0)));
    assert_eq!(b - a.into(), Kilometers::from(s(1.8)));
}

#[test]
fn miles() {
    let a = Meters::from(s(4023.36));
    let b = Miles::from(s(3.0));
    assert_eq!(Miles::from(s(2.5)), a.into());
    assert_eq!(Meters::from(s(4828.032)), b.into());
    assert_eq!(Kilometers::from(s(4.828032)), b.into());
}

#[test]
fn kilometers_equal_the_meters_they_stand_for() {
    assert_eq!(Kilometers::from(s(1.4)).meters(), Meters::from(s(1400.0)));
    assert_eq!(Miles::from(s(3.0)).meters(), Meters::from(s(4828.032)));
    assert_eq!(Miles::from(s(3.0)).kilometers(), Kilometers::from(s(4.828032)));
}

#[test]
fn each_conversion_is_one_operation_with_its_constant() {
    let values = [0.0, -0.0, 1.0, -1.0, 0.1, 3.0, 1400.0, 4023.36, 1e-320, 5e-324, 1e305, 1.7976931348623157e308, -7.25e-3];
    for &x in &values {
        let m = Meters::from(s(x));
        let k = Kilometers::from(s(x));
        let i = Miles::from(s(x));
        assert_eq!(m.kilometers().value().to_bits(), (x / 1000.0).to_bits());
        assert_eq!(m.miles().value().to_bits(), (x / 1609.344).to_bits());
        assert_eq!(k.meters().value().to_bits(), (x * 1000.0).to_bits());
        assert_eq!(k.miles().value().to_bits(), (x / 1.609344).to_bits());
        assert_eq!(i.meters().value().to_bits(), (x * 1609.344).to_bits());
        assert_eq!(i.kilometers().value().to_bits(), (x * 1.609344).to_bits());
        assert_eq!(m.meters().value().to_bits(), x.to_bits());
        assert_eq!(k.kilometers().value().to_bits(), x.to_bits());
        assert_eq!(i.miles().value().to_bits(), x.to_bits());
        assert_eq!(Kilometers::from(m).value().to_bits(), (x / 1000.0).to_bits());
        assert_eq!(Miles::from(m).value().to_bits(), (x / 1609.344).to_bits());
        assert_eq!(Meters::from(k).value().to_bits(), (x * 1000.0).to_bits());
        assert_eq!(Miles::from(k).value().to_bits(), (x / 1.609344).to_bits());
        assert_eq!(Meters::from(i).value().to_bits(), (x * 1609.344).to_bits());
        assert_eq!(Kilometers::from(i).value().to_bits(), (x * 1.609344).to_bits());
    }
}

#[test]
fn the_constants_are_the_binary64_numbers_of_their_decimals() {
    assert_eq!(quantities::length::METERS_PER_KILOMETER, 1000.0f64.to_bits());
    assert_eq!(quantities::length::METERS_PER_MILE, 1609.344f64.to_bits());
    assert_eq!(quantities::length::KILOMETERS_PER_MILE, 1.609344f64.to_bits());
    assert_eq!(quantities::angle::HALF_TURN_DEGREES, 180.0f64.to_bits());
    assert_eq!(quantities::angle::PI, std::f64::consts::PI.to_bits());
}

#[test]
fn a_conversion_and_the_one_back_stay_within_tolerance() {
    let mut x = 1.0e-250f64;
    while x < 1.0e250 {
        let m = Meters::from(s(x));
        let k = Kilometers::from(s(x));
        let i = Miles::from(s(-x));
        assert!((f(m.kilometers().meters().value()) - x).abs() <= 4.0 * PART * x);
        assert!((f(m.miles().meters().value()) - x).abs() <= 4.0 * PART * x);
        assert!((f(k.meters().kilometers().value()) - x).abs() <= 4.0 * PART * x);
        assert!((f(k.miles().kilometers().value()) - x).abs() <= 4.0 * PART * x);
        assert!((f(i.meters().miles().value()) + x).abs() <= 4.0 * PART * x);
        assert!((f(i.kilometers().miles().value()) + x).abs() <= 4.0 * PART * x);
        x *= 1.4142135;
    }
}

#[test]
fn a_conversion_through_the_third_unit_agrees_with_the_direct_one() {
    let mut x = 1.0e-250f64;
    while x < 1.0e250 {
        let m = Meters::from(s(x));
        let k = Kilometers::from(s(x));
        let i = Miles::from(s(x));
        let near = |via: f64, direct: f64| (via - direct).abs() <= 8.0 * PART * direct.abs();
        assert!(near(f(m.miles().kilometers().value()), f(m.kilometers().value())));
        assert!(near(f(m.kilometers().miles().value()), f(m.miles().value())));
        assert!(near(f(k.miles().meters().value()), f(k.meters().value())));
        assert!(near(f(k.meters().miles().value()), f(k.miles().value())));
        assert!(near(f(i.kilometers().meters().value()), f(i.meters().value())));
        assert!(near(f(i.meters().kilometers().value()), f(i.kilometers().value())));
        x *= 1.4142135;
    }
}

#[test]
fn a_conversion_keeps_the_order() {
    let values = [
        f64::NEG_INFINITY, -1e308, -1609.344, -1.0, -1e-320, -0.0, 0.0, 5e-324, 1e-320, 0.999, 1.0,
        1.0000000000000002, 1400.0, 1e308, f64::INFINITY,
    ];
    for w in values.windows(2) {
        let (a, b) = (w[0], w[1]);
        assert!(Meters::from(s(a)) <= Meters::from(s(b)));
        assert!(Meters::from(s(a)).kilometers() <= Meters::from(s(b)).kilometers());
        assert!(Meters::from(s(a)).miles() <= Meters::from(s(b)).miles());
        assert!(Kilometers::from(s(a)).meters() <= Kilometers::from(s(b)).meters());
        assert!(Kilometers::from(s(a)).miles() <= Kilometers::from(s(b)).miles());
        assert!(Miles::from(s(a)).meters() <= Miles::from(s(b)).meters());
        assert!(Miles::from(s(a)).kilometers() <= Miles::from(s(b)).kilometers());
    }
}

#[test]
fn lengths_of_one_magnitude_in_two_units_compare_equal() {
    let a = Meters::from(s(1500.0));
    let b = Kilometers::from(s(1.5));
    assert!(a == b.meters());
    assert!(a.kilometers() == b);
    assert!(!(a < b.meters()) && !(a > b.meters()));
    let c = Kilometers::from(s(1.25));
    assert!(c.meters() < a);
    assert!(c < a.kilometers());
    assert!(a.miles() > c.miles());
}

#[test]
fn the_two_zeros_are_equal_and_a_nan_is_unordered() {
    let zero = Meters::from(s(0.0));
    let minus_zero = Meters::from(s(-0.0));
    let nan = Meters::from(s(f64::NAN));
    assert!(zero == minus_zero);
    assert!(!(zero < minus_zero) && !(minus_zero < zero));
    assert!(nan != nan);
    assert!(!(nan < zero) && !(nan > zero) && !(nan <= nan) && !(nan >= nan));
    assert_eq!(nan.partial_cmp(&zero), None);
    assert_eq!(zero.partial_cmp(&minus_zero), Some(std::cmp::Ordering::Equal));
    assert_eq!(zero.partial_cmp(&Meters::from(s(1.0))), Some(std::cmp::Ordering::Less));
    assert_eq!(zero.partial_cmp(&Meters::from(s(-1.0))), Some(std::cmp::Ordering::Greater));
}

#[test]
fn nothing_is_checked_and_nothing_fails() {
    let a = Meters::from(s(-5.0));
    assert_eq!(f(a.value()), -5.0);
    assert_eq!(f((a / s(0.0)).value()), f64::NEG_INFINITY);
    assert!(f((Meters::from(s(0.0)) / s(0.0)).value()).is_nan());
    assert!(f((Meters::from(s(f64::INFINITY)) - Meters::from(s(f64::INFINITY))).value()).is_nan());
    assert!(f((a % s(0.0)).value()).is_nan());
    assert_eq!(f((Kilometers::from(s(1e308)).meters()).value()), f64::INFINITY);
    assert!(f(Miles::from(s(f64::NAN)).kilometers().value()).is_nan());
    assert_eq!(f((Meters::from(s(f64::INFINITY)) * s(2.0)).value()), f64::INFINITY);
}

#[test]
fn a_length_gives_back_the_scalar_it_was_made_from() {
    let x = s(12.75);
    assert_eq!(Meters::new(x).value().to_bits(), x.to_bits());
    assert_eq!(Meters::from(x).value().to_bits(), x.to_bits());
    assert_eq!(Kilometers::new(x).value().to_bits(), x.to_bits());
    assert_eq!(Miles::new(x).value().to_bits(), x.to_bits());
    let m = Miles::new(x);
    let r: &Scalar = m.as_ref();
    assert_eq!(r.to_bits(), x.to_bits());
    let copy = m;
    assert_eq!(copy.value().to_bits(), m.value().to_bits());
}

#[test]
fn the_remainder_has_the_sign_of_the_length() {
    assert_eq!(f((Meters::from(s(7.5)) % s(2.0)).value()), 1.5);
    assert_eq!(f((Meters::from(s(-7.5)) % s(2.0)).value()), -1.5);
    assert_eq!(f((Meters::from(s(7.5)) % s(-2.0)).value()), 1.5);
    assert_eq!((Kilometers::from(s(-6.0)) % s(3.0)).value().to_bits(), (-0.0f64).to_bits());
    assert_eq!(f((Miles::from(s(5.0)) % s(f64::INFINITY)).value()), 5.0);
}

#[test]
fn length_compound_assignment_replaces_the_value() {
    let start = Meters::new(s(10.0));
    let mut a = start;
    a += Meters::new(s(0.5));
    assert_eq!(f(a.value()), 10.5);
    a -= Meters::new(s(2.0));
    assert_eq!(f(a.value()), 8.5);
    a *= s(4.0);
    assert_eq!(f(a.value()), 34.0);
    a /= s(8.0);
    assert_eq!(f(a.value()), 4.25);
    a %= s(1.5);
    assert_eq!(f(a.value()), 1.25);
    assert_eq!(f(start.value()), 10.0);

    let mut k = Kilometers::new(s(0.1));
    k += Kilometers::new(s(0.2));
    assert_eq!(f(k.value()), 0.1 + 0.2);
    k *= s(3.0);
    assert_eq!(f(k.value()), (0.1 + 0.2) * 3.0);
    let mut i = Miles::new(s(26.2));
    i -= Miles::new(s(0.3));
    i /= s(7.0);
    i %= s(0.5);
    assert_eq!(f(i.value()), ((26.2 - 0.3) / 7.0) % 0.5);
}

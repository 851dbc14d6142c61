use mnist::scalar::greater;
use mnist::scalar::is_nan;
use mnist::scalar::is_unit;
use mnist::scalar::relu;
use mnist::scalar::INFINITY;
use mnist::scalar::ONE;
use mnist::scalar::SIGN;
use mnist::scalar::ZERO;

fn samples() -> Vec<f64> {
    vec![
        0.0,
        -0.0,
        f64::MIN_POSITIVE,
        -f64::MIN_POSITIVE,
        5e-324,
        -5e-324,
        0.1,
        -0.1,
        0.5,
        0.999_999_999_999_999_9,
        1.0,
        -1.0,
        1.000_000_000_000_000_2,
        2.0,
        -2.0,
        255.0,
        1e300,
        -1e300,
        f64::MAX,
        f64::MIN,
        f64::INFINITY,
        f64::NEG_INFINITY,
        f64::NAN,
        -f64::NAN,
        f64::from_bits(0x7ff0_0000_0000_0001),
        f64::from_bits(0xffff_ffff_ffff_ffff),
    ]
}

#[test]
fn the_constants_are_the_patterns_of_their_numbers() {
    assert_eq!(ZERO, 0.0f64.to_bits());
    assert_eq!(ONE, 1.0f64.to_bits());
    assert_eq!(INFINITY, f64::INFINITY.to_bits());
    assert_eq!(SIGN, (-0.0f64).to_bits());
}

#[test]
fn not_a_number_is_told_from_numbers() {
    for x in samples() {
        assert_eq!(is_nan(x.to_bits()), x.is_nan(), "{x}");
    }
}

#[test]
fn greater_agrees_with_the_numbers() {
    for a in samples() {
        for b in samples() {
            assert_eq!(greater(a.to_bits(), b.to_bits()), a > b, "{a} > {b}");
        }
    }
}

#[test]
fn the_two_zeros_are_equal() {
    assert!(!greater(ZERO, SIGN));
    assert!(!greater(SIGN, ZERO));
}

#[test]
fn the_unit_interval_is_half_open() {
    for x in samples() {
        assert_eq!(is_unit(x.to_bits()), x.to_bits() >> 63 == 0 && (0.0..1.0).contains(&x), "{x}");
    }
    assert!(is_unit(ZERO));
    assert!(is_unit(ONE - 1));
    assert!(!is_unit(ONE));
    assert!(!is_unit(SIGN));
}

#[test]
fn the_rectifier_keeps_what_is_greater_than_zero() {
    for x in samples() {
        let expected = if x > 0.0 { x } else { 0.0 };
        assert_eq!(relu(x.to_bits()), expected.to_bits(), "{x}");
    }
    assert_eq!(relu(0.25f64.to_bits()), 0.25f64.to_bits());
    assert_eq!(relu((-0.25f64).to_bits()), ZERO);
    assert_eq!(relu(SIGN), ZERO);
    assert_eq!(relu(f64::NAN.to_bits()), ZERO);
    assert_eq!(relu(INFINITY), INFINITY);
}

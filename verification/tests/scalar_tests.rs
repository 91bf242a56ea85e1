use path_kernel::scalar::Scalar;
use path_kernel::scalar::{
    EPSILON_BITS, HALF_BITS, INFINITY_BITS, MINUS_ONE_BITS, NEARLY_ZERO_BITS,
    NEARLY_ZERO_CUBED_BITS, ONE_BITS, ONE_MINUS_EPSILON_BITS, ROOT_2_OVER_2_BITS, SIGN_BIT,
};

fn s(x: f32) -> Scalar {
    Scalar::from_bits(x.to_bits())
}

fn samples() -> Vec<f32> {
    vec![
        0.0f32,
        -0.0,
        1.0,
        -1.0,
        0.5,
        1.0e-40,
        -1.0e-40,
        f32::MAX,
        f32::MIN,
        f32::INFINITY,
        f32::NEG_INFINITY,
        f32::NAN,
        -f32::NAN,
        f32::MIN_POSITIVE,
        3.25,
        -7.5,
        1.0 / 4096.0,
        -1.0 / 4096.0,
        0.00024414065,
        f32::EPSILON,
    ]
}

#[test]
fn scalar_lt_matches_hardware() {
    for a in samples() {
        for b in samples() {
            assert_eq!(s(a).lt(&s(b)), a < b);
            assert_eq!(s(a).le(&s(b)), a <= b);
            assert_eq!(s(a).gt(&s(b)), a > b);
            assert_eq!(s(a).ge(&s(b)), a >= b);
            assert_eq!(s(a) == s(b), a == b);
            assert_eq!(s(a) != s(b), a != b);
        }
    }
}

#[test]
fn scalar_neg_and_abs_match_hardware() {
    for a in samples() {
        assert_eq!(s(a).neg().to_bits(), (-a).to_bits());
        assert_eq!(s(a).abs().to_bits(), a.abs().to_bits());
    }
}

#[test]
fn scalar_classification_matches_hardware() {
    for a in samples() {
        assert_eq!(s(a).is_nan(), a.is_nan());
        assert_eq!(s(a).is_finite(), a.is_finite());
        assert_eq!(s(a).is_sign_negative(), a.is_sign_negative());
    }
}

#[test]
fn scalar_order_key_orders_as_hardware() {
    for a in samples() {
        for b in samples() {
            if a.is_nan() || b.is_nan() {
                continue;
            }
            assert_eq!(s(a).order_key() < s(b).order_key(), a < b);
            assert_eq!(s(a).order_key() == s(b).order_key(), a == b);
        }
    }
    assert_eq!(s(0.0).order_key(), 0);
    assert_eq!(s(-0.0).order_key(), 0);
    assert_eq!(s(1.0).order_key(), 0x3f80_0000);
    assert_eq!(s(-1.0).order_key(), -0x3f80_0000);
}

#[test]
fn scalar_constants_are_the_patterns_they_name() {
    assert_eq!(SIGN_BIT, (-0.0f32).to_bits());
    assert_eq!(INFINITY_BITS, f32::INFINITY.to_bits());
    assert_eq!(ONE_BITS, 1.0f32.to_bits());
    assert_eq!(HALF_BITS, 0.5f32.to_bits());
    assert_eq!(MINUS_ONE_BITS, (-1.0f32).to_bits());
    assert_eq!(EPSILON_BITS, f32::EPSILON.to_bits());
    assert_eq!(ONE_MINUS_EPSILON_BITS, (1.0f32 - f32::EPSILON).to_bits());
    assert_eq!(NEARLY_ZERO_BITS, (1.0f32 / (1 << 12) as f32).to_bits());
    let nearly_zero = 1.0f32 / (1 << 12) as f32;
    assert_eq!(NEARLY_ZERO_CUBED_BITS, (nearly_zero * nearly_zero * nearly_zero).to_bits());
    assert_eq!(ROOT_2_OVER_2_BITS, 0.707106781f32.to_bits());
    assert_eq!(ROOT_2_OVER_2_BITS, std::f32::consts::FRAC_1_SQRT_2.to_bits());
    assert_eq!(Scalar::zero().to_bits(), 0.0f32.to_bits());
    assert_eq!(Scalar::one().to_bits(), 1.0f32.to_bits());
}

#[test]
fn scalar_nearly_zero() {
    let tolerance = 1.0f32 / 4096.0;
    for a in samples() {
        assert_eq!(s(a).is_nearly_zero(), a.abs() <= tolerance);
        assert_eq!(
            s(a).is_nearly_zero_within_tolerance(s(f32::EPSILON)),
            a.abs() <= f32::EPSILON
        );
    }
    assert!(s(0.0).is_nearly_zero());
    assert!(s(-0.0002).is_nearly_zero());
    assert!(s(tolerance).is_nearly_zero());
    assert!(!s(0.00024414065).is_nearly_zero());
    assert!(!s(f32::NAN).is_nearly_zero());
}

#[test]
fn scalar_nan_equals_nothing() {
    let nan = s(f32::NAN);
    assert!(!(nan == nan));
    assert!(nan != nan);
    assert!(!nan.lt(&nan));
    assert!(!nan.le(&nan));
}

#[test]
fn scalar_zeros_are_equal() {
    assert!(s(0.0) == s(-0.0));
    assert!(!s(-0.0).lt(&s(0.0)));
    assert!(s(-0.0).le(&s(0.0)));
    assert_ne!(s(0.0).to_bits(), s(-0.0).to_bits());
}

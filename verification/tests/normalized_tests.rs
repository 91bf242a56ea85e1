use path_kernel::normalized::{NormalizedF32, NormalizedF32Exclusive};
use path_kernel::scalar::Scalar;

fn s(x: f32) -> Scalar {
    Scalar::from_bits(x.to_bits())
}

fn f(x: Scalar) -> f32 {
    f32::from_bits(x.to_bits())
}

#[test]
fn normalized_new_accepts_the_closed_interval() {
    for x in [0.0f32, -0.0, 1.0, 0.5, 1.0e-40, 0.99999994, f32::MIN_POSITIVE] {
        let n = NormalizedF32::new(s(x)).unwrap();
        assert_eq!(n.get().to_bits(), x.to_bits());
    }
}

#[test]
fn normalized_new_rejects_what_lies_outside() {
    for x in [
        -1.0e-45f32,
        1.0000001,
        2.0,
        -1.0,
        f32::INFINITY,
        f32::NEG_INFINITY,
        f32::NAN,
        -f32::NAN,
    ] {
        assert!(NormalizedF32::new(s(x)).is_none());
    }
}

#[test]
fn normalized_new_clamped() {
    assert_eq!(f(NormalizedF32::new_clamped(s(0.5)).get()), 0.5);
    assert_eq!(f(NormalizedF32::new_clamped(s(1.5)).get()), 1.0);
    assert_eq!(f(NormalizedF32::new_clamped(s(-0.5)).get()), 0.0);
    assert_eq!(f(NormalizedF32::new_clamped(s(1.0)).get()), 1.0);
    assert_eq!(f(NormalizedF32::new_clamped(s(0.0)).get()), 0.0);
    assert_eq!(f(NormalizedF32::new_clamped(s(f32::MAX)).get()), 1.0);
    assert_eq!(f(NormalizedF32::new_clamped(s(f32::INFINITY)).get()), 0.0);
    assert_eq!(f(NormalizedF32::new_clamped(s(f32::NEG_INFINITY)).get()), 0.0);
    assert_eq!(f(NormalizedF32::new_clamped(s(f32::NAN)).get()), 0.0);
    assert_eq!(NormalizedF32::new_clamped(s(-0.0)).get().to_bits(), 0);
    for x in [0.25f32, 0.75, 1.0e-40, 0.99999994] {
        assert_eq!(NormalizedF32::new_clamped(s(x)).get().to_bits(), x.to_bits());
    }
}

#[test]
fn normalized_ends() {
    assert_eq!(f(NormalizedF32::zero().get()), 0.0);
    assert_eq!(f(NormalizedF32::one().get()), 1.0);
    assert!(NormalizedF32::zero() == NormalizedF32::new(s(-0.0)).unwrap());
    assert!(NormalizedF32::zero() != NormalizedF32::one());
}

#[test]
fn exclusive_new_accepts_the_open_interval_only() {
    for x in [0.5f32, 1.0e-45, 0.99999994, f32::MIN_POSITIVE, f32::EPSILON] {
        let n = NormalizedF32Exclusive::new(s(x)).unwrap();
        assert_eq!(n.get().to_bits(), x.to_bits());
    }
    for x in [0.0f32, -0.0, 1.0, 1.0000001, -0.5, f32::INFINITY, f32::NAN, -f32::NAN] {
        assert!(NormalizedF32Exclusive::new(s(x)).is_none());
    }
}

#[test]
fn exclusive_new_bounded() {
    let low = f32::EPSILON;
    let high = 1.0 - f32::EPSILON;
    assert_eq!(f(NormalizedF32Exclusive::new_bounded(s(0.5)).get()), 0.5);
    assert_eq!(f(NormalizedF32Exclusive::new_bounded(s(0.0)).get()), low);
    assert_eq!(f(NormalizedF32Exclusive::new_bounded(s(-3.0)).get()), low);
    assert_eq!(f(NormalizedF32Exclusive::new_bounded(s(1.0)).get()), high);
    assert_eq!(f(NormalizedF32Exclusive::new_bounded(s(7.0)).get()), high);
    assert_eq!(f(NormalizedF32Exclusive::new_bounded(s(f32::INFINITY)).get()), high);
    assert_eq!(f(NormalizedF32Exclusive::new_bounded(s(f32::NEG_INFINITY)).get()), low);
    assert_eq!(f(NormalizedF32Exclusive::new_bounded(s(f32::NAN)).get()), high);
    assert_eq!(f(NormalizedF32Exclusive::new_bounded(s(low)).get()), low);
    assert_eq!(f(NormalizedF32Exclusive::new_bounded(s(high)).get()), high);
    for x in [-1.0f32, 0.0, 1.0e-10, 0.3, 0.9999999, 1.0, 2.0, f32::INFINITY] {
        let expected = x.max(low).min(high);
        assert_eq!(f(NormalizedF32Exclusive::new_bounded(s(x)).get()), expected);
    }
}

#[test]
fn exclusive_any_is_one_half() {
    assert_eq!(f(NormalizedF32Exclusive::any().get()), 0.5);
    assert_eq!(f(NormalizedF32Exclusive::half().get()), 0.5);
}

#[test]
fn exclusive_to_normalized_keeps_the_value() {
    let n = NormalizedF32Exclusive::new(s(0.3)).unwrap();
    assert_eq!(n.to_normalized().get().to_bits(), 0.3f32.to_bits());
    assert!(n.to_normalized() == NormalizedF32::new(s(0.3)).unwrap());
}

use path_kernel::f32x2_t::{f32x2, pmax, pmin};
use path_kernel::point::{Double, Point, Point64, SearchAxis};
use path_kernel::scalar::Scalar;

fn s(x: f32) -> Scalar {
    Scalar::from_bits(x.to_bits())
}

fn f(x: Scalar) -> f32 {
    f32::from_bits(x.to_bits())
}

fn d(x: f64) -> Double {
    Double::from_bits(x.to_bits())
}

fn pair(a: f32, b: f32) -> f32x2 {
    f32x2::new(s(a), s(b))
}

fn bits(p: f32x2) -> [u32; 2] {
    [p.x().to_bits(), p.y().to_bits()]
}

fn pmax_on_hardware(a: f32, b: f32) -> f32 {
    if b < a {
        a
    } else {
        b
    }
}

fn pmin_on_hardware(a: f32, b: f32) -> f32 {
    if a < b {
        a
    } else {
        b
    }
}

#[test]
fn point_from_xy_and_zero() {
    let p = Point::from_xy(s(1.5), s(-2.5));
    assert_eq!((f(p.x), f(p.y)), (1.5, -2.5));
    let z = Point::zero();
    assert_eq!((z.x.to_bits(), z.y.to_bits()), (0, 0));
    assert!(z.is_zero());
    assert!(Point::from_xy(s(-0.0), s(0.0)).is_zero());
    assert!(!p.is_zero());
    assert!(!Point::from_xy(s(0.0), s(f32::NAN)).is_zero());
}

#[test]
fn point_is_finite() {
    assert!(Point::from_xy(s(1.0), s(2.0)).is_finite());
    assert!(Point::from_xy(s(f32::MAX), s(f32::MAX)).is_finite());
    assert!(!Point::from_xy(s(f32::INFINITY), s(2.0)).is_finite());
    assert!(!Point::from_xy(s(1.0), s(f32::NEG_INFINITY)).is_finite());
    assert!(!Point::from_xy(s(f32::NAN), s(2.0)).is_finite());
    assert!(!Point::from_xy(s(1.0), s(f32::NAN)).is_finite());
}

#[test]
fn point_equality_is_that_of_the_numbers() {
    assert!(Point::from_xy(s(1.0), s(2.0)) == Point::from_xy(s(1.0), s(2.0)));
    assert!(Point::from_xy(s(0.0), s(2.0)) == Point::from_xy(s(-0.0), s(2.0)));
    assert!(Point::from_xy(s(1.0), s(2.0)) != Point::from_xy(s(1.0), s(3.0)));
    let nan = Point::from_xy(s(f32::NAN), s(2.0));
    assert!(nan != nan);
}

#[test]
fn point64_axis_coord() {
    let p = Point64::from_xy(d(1.25), d(-7.5));
    assert_eq!(f64::from_bits(p.axis_coord(SearchAxis::X).to_bits()), 1.25);
    assert_eq!(f64::from_bits(p.axis_coord(SearchAxis::Y).to_bits()), -7.5);
    let z = Point64::zero();
    assert_eq!(f64::from_bits(z.axis_coord(SearchAxis::X).to_bits()), 0.0);
    assert_eq!(f64::from_bits(z.axis_coord(SearchAxis::Y).to_bits()), 0.0);
    assert_ne!(SearchAxis::X, SearchAxis::Y);
}

#[test]
fn pair_new_and_splat() {
    assert_eq!(bits(pair(1.0, 2.0)), [1.0f32.to_bits(), 2.0f32.to_bits()]);
    assert_eq!(bits(f32x2::splat(s(3.0))), [3.0f32.to_bits(), 3.0f32.to_bits()]);
}

#[test]
fn pair_abs() {
    assert_eq!(bits(pair(-1.0, 2.0).abs()), [1.0f32.to_bits(), 2.0f32.to_bits()]);
    assert_eq!(bits(pair(-0.0, f32::NEG_INFINITY).abs()), [0, f32::INFINITY.to_bits()]);
}

#[test]
fn pair_min_and_max_go_lane_by_lane() {
    let a = pair(1.0, 5.0);
    let b = pair(3.0, 2.0);
    assert_eq!(bits(a.min(b)), [1.0f32.to_bits(), 2.0f32.to_bits()]);
    assert_eq!(bits(a.max(b)), [3.0f32.to_bits(), 5.0f32.to_bits()]);
    assert_eq!(f(a.max_component()), 5.0);
    assert_eq!(f(b.max_component()), 3.0);
}

#[test]
fn pmin_and_pmax_match_hardware() {
    let samples = [0.0f32, -0.0, 1.0, -1.0, f32::INFINITY, f32::NEG_INFINITY, f32::NAN, 1.0e-40];
    for a in samples {
        for b in samples {
            assert_eq!(pmax(s(a), s(b)).to_bits(), pmax_on_hardware(a, b).to_bits());
            assert_eq!(pmin(s(a), s(b)).to_bits(), pmin_on_hardware(a, b).to_bits());
        }
    }
}

#[test]
fn pmin_and_pmax_keep_the_second_operand_beside_a_nan() {
    assert!(f(pmax(s(1.0), s(f32::NAN))).is_nan());
    assert!(f(pmin(s(1.0), s(f32::NAN))).is_nan());
    assert_eq!(f(pmax(s(f32::NAN), s(1.0))), 1.0);
    assert_eq!(f(pmin(s(f32::NAN), s(1.0))), 1.0);
}

#[test]
fn pmin_and_pmax_keep_the_second_operand_on_a_tie() {
    assert_eq!(pmax(s(0.0), s(-0.0)).to_bits(), (-0.0f32).to_bits());
    assert_eq!(pmin(s(0.0), s(-0.0)).to_bits(), (-0.0f32).to_bits());
    assert_eq!(pmax(s(-0.0), s(0.0)).to_bits(), 0.0f32.to_bits());
    assert_eq!(pmin(s(-0.0), s(0.0)).to_bits(), 0.0f32.to_bits());
}

#[test]
fn pair_max_beside_a_nan_takes_the_other_pair() {
    let a = pair(f32::NAN, 1.0);
    let b = pair(2.0, 3.0);
    assert_eq!(bits(a.max(b)), [2.0f32.to_bits(), 3.0f32.to_bits()]);
    assert_eq!(bits(a.min(b)), [2.0f32.to_bits(), 1.0f32.to_bits()]);
}

#[test]
fn pair_equality_is_that_of_the_numbers() {
    assert!(pair(0.0, 1.0) == pair(-0.0, 1.0));
    assert!(pair(0.0, 1.0) != pair(0.0, 2.0));
    assert!(pair(f32::NAN, 1.0) != pair(f32::NAN, 1.0));
}

#[test]
fn doubles_are_equal_as_numbers() {
    assert!(d(1.5) == d(1.5));
    assert!(d(0.0) == d(-0.0));
    assert!(d(1.5) != d(-1.5));
    assert!(d(f64::INFINITY) == d(f64::INFINITY));
    assert!(d(f64::INFINITY) != d(f64::NEG_INFINITY));
    assert!(d(f64::NAN) != d(f64::NAN));
    assert!(d(f64::NAN) != d(1.0));
    assert!(d(f64::NAN).is_nan());
    assert!(Double::from_bits(0xfff8_0000_0000_0001).is_nan());
    assert!(!d(f64::INFINITY).is_nan());
    assert!(!d(f64::NEG_INFINITY).is_nan());
    let samples = [0.0f64, -0.0, 1.0, -1.0, 5.0e-324, f64::MAX, f64::INFINITY, f64::NAN];
    for a in samples {
        for b in samples {
            assert_eq!(d(a) == d(b), a == b);
        }
    }
}

#[test]
fn points_of_doubles_are_equal_as_numbers() {
    assert!(Point64::from_xy(d(1.0), d(-2.0)) == Point64::from_xy(d(1.0), d(-2.0)));
    assert!(Point64::from_xy(d(0.0), d(-0.0)) == Point64::zero());
    assert!(Point64::from_xy(d(1.0), d(2.0)) != Point64::from_xy(d(1.0), d(3.0)));
    assert!(Point64::from_xy(d(1.0), d(2.0)) != Point64::from_xy(d(0.0), d(2.0)));
    assert!(Point64::from_xy(d(f64::NAN), d(2.0)) != Point64::from_xy(d(f64::NAN), d(2.0)));
}

#[test]
fn defaults_are_zero() {
    assert_eq!(Scalar::default().to_bits(), 0);
    assert_eq!(Double::default().to_bits(), 0);
    let p = Point::default();
    assert_eq!((p.x.to_bits(), p.y.to_bits()), (0, 0));
    let q = Point64::default();
    assert_eq!((q.x.to_bits(), q.y.to_bits()), (0, 0));
    assert_eq!(bits(f32x2::default()), [0, 0]);
}

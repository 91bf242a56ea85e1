use path_kernel::normalized::{NormalizedF32, NormalizedF32Exclusive};
use path_kernel::path_geometry::{
    bound_cosine, clamped_divide_operands, collapse_duplicates3, collect_unit_roots, cubic_tangent_chord,
    cusp_ends_allow, first_cusp, new_t_values, order_three_roots, quad_tangent_is_chord,
    sort_array3, unit_divide_operands, widen_roots, CubicCoeff, QuadCoeff, UnitRatio,
};
use path_kernel::point::Point;
use path_kernel::scalar::Scalar;

fn s(x: f32) -> Scalar {
    Scalar::from_bits(x.to_bits())
}

fn f(x: Scalar) -> f32 {
    f32::from_bits(x.to_bits())
}

fn n(x: f32) -> NormalizedF32 {
    NormalizedF32::new(s(x)).unwrap()
}

fn e(x: f32) -> NormalizedF32Exclusive {
    NormalizedF32Exclusive::new(s(x)).unwrap()
}

fn p(x: f32, y: f32) -> Point {
    Point::from_xy(s(x), s(y))
}

fn values(a: &[NormalizedF32; 3]) -> [f32; 3] {
    [f(a[0].get()), f(a[1].get()), f(a[2].get())]
}

fn open_values(a: &[NormalizedF32Exclusive; 3]) -> [f32; 3] {
    [f(a[0].get()), f(a[1].get()), f(a[2].get())]
}

// The division that the operands are prepared for, as the hardware makes it.
fn valid_unit_divide(numer: f32, denom: f32) -> Option<f32> {
    let (n, d) = unit_divide_operands(s(numer), s(denom))?;
    let r = f(n) / f(d);
    NormalizedF32Exclusive::new(s(r)).map(|v| f(v.get()))
}

// The same division with every test made on hardware values.
fn valid_unit_divide_on_hardware(mut numer: f32, mut denom: f32) -> Option<f32> {
    if numer < 0.0 {
        numer = -numer;
        denom = -denom;
    }
    if denom == 0.0 || numer == 0.0 || numer >= denom {
        return None;
    }
    let r = numer / denom;
    if r > 0.0 && r < 1.0 {
        Some(r)
    } else {
        None
    }
}

#[test]
fn t_values_start_at_one_half() {
    assert_eq!(open_values(&new_t_values()), [0.5, 0.5, 0.5]);
}

#[test]
fn sort_array3_sorts_every_order() {
    let orders = [
        [0.1f32, 0.5, 0.9],
        [0.1, 0.9, 0.5],
        [0.5, 0.1, 0.9],
        [0.5, 0.9, 0.1],
        [0.9, 0.1, 0.5],
        [0.9, 0.5, 0.1],
    ];
    for order in orders {
        let mut a = [n(order[0]), n(order[1]), n(order[2])];
        sort_array3(&mut a);
        assert_eq!(values(&a), [0.1, 0.5, 0.9]);
    }
}

#[test]
fn sort_array3_keeps_repeated_values() {
    let mut a = [n(1.0), n(0.0), n(1.0)];
    sort_array3(&mut a);
    assert_eq!(values(&a), [0.0, 1.0, 1.0]);
    let mut a = [n(0.5), n(0.5), n(0.25)];
    sort_array3(&mut a);
    assert_eq!(values(&a), [0.25, 0.5, 0.5]);
}

fn collapsed(a: f32, b: f32, c: f32) -> (usize, [f32; 3]) {
    let mut array = [n(a), n(b), n(c)];
    let len = collapse_duplicates3(&mut array);
    (len, values(&array))
}

#[test]
fn collapse_duplicates3_keeps_each_distinct_value() {
    assert_eq!(collapsed(0.0, 0.5, 1.0), (3, [0.0, 0.5, 1.0]));
    assert_eq!(collapsed(0.0, 1.0, 1.0), (2, [0.0, 1.0, 1.0]));
    assert_eq!(collapsed(0.0, 0.0, 1.0), (2, [0.0, 1.0, 1.0]));
    assert_eq!(collapsed(0.5, 0.5, 0.5), (1, [0.5, 0.5, 0.5]));
    // The two zeros are one value.
    assert_eq!(collapsed(0.0, -0.0, 1.0), (2, [0.0, 1.0, 1.0]));
    assert_eq!(collapsed(0.0, -0.0, 0.0).0, 1);
}

#[test]
fn max_curvature_roots_are_sorted_and_kept() {
    // What the three roots of a cubic with its points of greatest curvature at
    // both ends and in the middle look like before they are put in order.
    let mut t_values = [n(1.0), n(0.0), n(0.5)];
    sort_array3(&mut t_values);
    let len = collapse_duplicates3(&mut t_values);
    assert_eq!(len, 3);
    assert_eq!(values(&t_values), [0.0, 0.5, 1.0]);
    assert!(t_values[0] == NormalizedF32::zero());
    assert!(t_values[1] == NormalizedF32::new_clamped(s(0.5)));
    assert!(t_values[2] == NormalizedF32::one());
}

#[test]
fn collect_unit_roots_none() {
    let mut roots = new_t_values();
    assert_eq!(collect_unit_roots(None, None, &mut roots), 0);
    assert_eq!(open_values(&roots), [0.5, 0.5, 0.5]);
}

#[test]
fn collect_unit_roots_one() {
    let mut roots = new_t_values();
    assert_eq!(collect_unit_roots(Some(e(0.25)), None, &mut roots), 1);
    assert_eq!(open_values(&roots), [0.25, 0.5, 0.5]);
    let mut roots = new_t_values();
    assert_eq!(collect_unit_roots(None, Some(e(0.75)), &mut roots), 1);
    assert_eq!(open_values(&roots), [0.75, 0.5, 0.5]);
}

#[test]
fn collect_unit_roots_two_in_order() {
    let mut roots = new_t_values();
    assert_eq!(collect_unit_roots(Some(e(0.25)), Some(e(0.75)), &mut roots), 2);
    assert_eq!(open_values(&roots), [0.25, 0.75, 0.5]);
}

#[test]
fn collect_unit_roots_two_out_of_order() {
    let mut roots = new_t_values();
    assert_eq!(collect_unit_roots(Some(e(0.75)), Some(e(0.25)), &mut roots), 2);
    assert_eq!(open_values(&roots), [0.25, 0.75, 0.5]);
}

#[test]
fn collect_unit_roots_double_root_counts_once() {
    let mut roots = new_t_values();
    assert_eq!(collect_unit_roots(Some(e(0.4)), Some(e(0.4)), &mut roots), 1);
    assert_eq!(f(roots[0].get()), 0.4);
}

#[test]
fn widen_roots_copies_the_count() {
    let roots = [e(0.125), e(0.25), e(0.375)];
    let mut t_values = [n(1.0), n(1.0), n(1.0)];
    widen_roots(&roots, 2, &mut t_values);
    assert_eq!(values(&t_values), [0.125, 0.25, 1.0]);
    widen_roots(&roots, 0, &mut t_values);
    assert_eq!(values(&t_values), [0.125, 0.25, 1.0]);
    widen_roots(&roots, 3, &mut t_values);
    assert_eq!(values(&t_values), [0.125, 0.25, 0.375]);
}

#[test]
fn unit_divide_accepts_quotients_inside() {
    assert_eq!(valid_unit_divide(1.0, 2.0), Some(0.5));
    assert_eq!(valid_unit_divide(-1.0, -2.0), Some(0.5));
    assert_eq!(valid_unit_divide(3.0, 4.0), Some(0.75));
    assert_eq!(valid_unit_divide(1.0, 3.0), Some(1.0 / 3.0f32));
}

#[test]
fn unit_divide_rejects_the_rest() {
    assert_eq!(valid_unit_divide(1.0, 0.0), None);
    assert_eq!(valid_unit_divide(0.0, 1.0), None);
    assert_eq!(valid_unit_divide(-0.0, 1.0), None);
    assert_eq!(valid_unit_divide(2.0, 2.0), None);
    assert_eq!(valid_unit_divide(3.0, 2.0), None);
    assert_eq!(valid_unit_divide(1.0, -2.0), None);
    assert_eq!(valid_unit_divide(-1.0, 2.0), None);
    assert_eq!(valid_unit_divide(f32::NAN, 2.0), None);
    assert_eq!(valid_unit_divide(1.0, f32::NAN), None);
    assert_eq!(valid_unit_divide(1.0, f32::INFINITY), None);
    assert_eq!(valid_unit_divide(f32::INFINITY, f32::INFINITY), None);
}

#[test]
fn unit_divide_operands_are_turned_together() {
    let (a, b) = unit_divide_operands(s(-1.0), s(-4.0)).unwrap();
    assert_eq!((f(a), f(b)), (1.0, 4.0));
    let (a, b) = unit_divide_operands(s(1.0), s(4.0)).unwrap();
    assert_eq!((f(a), f(b)), (1.0, 4.0));
    assert!(unit_divide_operands(s(-1.0), s(4.0)).is_none());
}

#[test]
fn unit_divide_matches_hardware() {
    let samples = [
        0.0f32,
        -0.0,
        1.0,
        -1.0,
        0.5,
        -0.5,
        2.0,
        -2.0,
        1.0e-40,
        -1.0e-40,
        3.0e38,
        -3.0e38,
        f32::INFINITY,
        f32::NEG_INFINITY,
        f32::NAN,
        1.0e-45,
        0.99999994,
    ];
    for a in samples {
        for b in samples {
            assert_eq!(valid_unit_divide(a, b), valid_unit_divide_on_hardware(a, b));
        }
    }
}

fn quad_max_curvature_on_hardware(mut numer: f32, mut denom: f32) -> Option<f32> {
    if denom < 0.0 {
        numer = -numer;
        denom = -denom;
    }
    if numer <= 0.0 {
        return Some(0.0);
    }
    if numer >= denom {
        return Some(1.0);
    }
    let t = numer / denom;
    if (0.0..=1.0).contains(&t) {
        Some(t)
    } else {
        None
    }
}

fn quad_max_curvature(numer: f32, denom: f32) -> Option<f32> {
    match clamped_divide_operands(s(numer), s(denom)) {
        UnitRatio::Zero => Some(0.0),
        UnitRatio::One => Some(1.0),
        UnitRatio::Quotient(a, b) => NormalizedF32::new(s(f(a) / f(b))).map(|v| f(v.get())),
    }
}

#[test]
fn clamped_divide_ends_and_quotient() {
    assert_eq!(quad_max_curvature(1.0, 4.0), Some(0.25));
    assert_eq!(quad_max_curvature(-1.0, -4.0), Some(0.25));
    assert_eq!(quad_max_curvature(-1.0, 4.0), Some(0.0));
    assert_eq!(quad_max_curvature(0.0, 4.0), Some(0.0));
    assert_eq!(quad_max_curvature(5.0, 4.0), Some(1.0));
    assert_eq!(quad_max_curvature(4.0, 4.0), Some(1.0));
    assert_eq!(quad_max_curvature(1.0, 0.0), Some(1.0));
    assert_eq!(quad_max_curvature(0.0, 0.0), Some(0.0));
    assert_eq!(quad_max_curvature(1.0, -4.0), Some(0.0));
}

#[test]
fn clamped_divide_matches_hardware() {
    let samples = [
        0.0f32,
        -0.0,
        1.0,
        -1.0,
        0.5,
        -0.5,
        2.0,
        -2.0,
        1.0e-40,
        -1.0e-40,
        3.0e38,
        f32::INFINITY,
        f32::NEG_INFINITY,
        f32::NAN,
    ];
    for a in samples {
        for b in samples {
            assert_eq!(quad_max_curvature(a, b), quad_max_curvature_on_hardware(a, b));
        }
    }
}

#[test]
fn quad_tangent_falls_back_at_a_doubled_end() {
    let doubled_start = [p(1.0, 2.0), p(1.0, 2.0), p(5.0, 6.0)];
    assert!(quad_tangent_is_chord(&doubled_start, NormalizedF32::zero()));
    assert!(!quad_tangent_is_chord(&doubled_start, NormalizedF32::one()));
    assert!(!quad_tangent_is_chord(&doubled_start, n(0.5)));
    let doubled_end = [p(1.0, 2.0), p(5.0, 6.0), p(5.0, 6.0)];
    assert!(quad_tangent_is_chord(&doubled_end, NormalizedF32::one()));
    assert!(!quad_tangent_is_chord(&doubled_end, NormalizedF32::zero()));
    let plain = [p(1.0, 2.0), p(3.0, 9.0), p(5.0, 6.0)];
    assert!(!quad_tangent_is_chord(&plain, NormalizedF32::zero()));
    assert!(!quad_tangent_is_chord(&plain, NormalizedF32::one()));
}

#[test]
fn cubic_tangent_at_a_doubled_start_is_the_chord_to_the_third_point() {
    let src = [p(30.0, 40.0), p(30.0, 40.0), p(171.0, 45.0), p(180.0, 155.0)];
    let (from, to) = cubic_tangent_chord(&src, NormalizedF32::zero()).unwrap();
    assert_eq!((from, to), (0, 2));
    let tangent = (f(src[to].x) - f(src[from].x), f(src[to].y) - f(src[from].y));
    assert_eq!(tangent, (141.0, 5.0));
    assert!(cubic_tangent_chord(&src, NormalizedF32::one()).is_none());
    assert!(cubic_tangent_chord(&src, n(0.5)).is_none());
}

#[test]
fn cubic_tangent_at_a_doubled_end_is_the_chord_from_the_second_point() {
    let src = [p(0.0, 0.0), p(1.0, 5.0), p(9.0, 9.0), p(9.0, 9.0)];
    assert_eq!(cubic_tangent_chord(&src, NormalizedF32::one()), Some((1, 3)));
    assert_eq!(cubic_tangent_chord(&src, NormalizedF32::zero()), None);
}

#[test]
fn cubic_tangent_with_both_ends_doubled() {
    let src = [p(0.0, 0.0), p(0.0, 0.0), p(9.0, 9.0), p(9.0, 9.0)];
    assert_eq!(cubic_tangent_chord(&src, NormalizedF32::zero()), Some((0, 2)));
    assert_eq!(cubic_tangent_chord(&src, NormalizedF32::one()), Some((1, 3)));
}

#[test]
fn cusp_needs_distinct_ends() {
    assert!(cusp_ends_allow(&[p(0.0, 0.0), p(1.0, 1.0), p(2.0, 0.0), p(3.0, 1.0)]));
    assert!(!cusp_ends_allow(&[p(0.0, 0.0), p(0.0, 0.0), p(2.0, 0.0), p(3.0, 1.0)]));
    assert!(!cusp_ends_allow(&[p(0.0, 0.0), p(1.0, 1.0), p(3.0, 1.0), p(3.0, 1.0)]));
    assert!(!cusp_ends_allow(&[p(0.0, 0.0), p(-0.0, 0.0), p(2.0, 0.0), p(3.0, 1.0)]));
}

#[test]
fn first_cusp_takes_the_first_short_derivative_inside() {
    let t_values = [n(0.0), n(0.25), n(0.5)];
    let magnitudes = [s(0.0), s(1.0e-3), s(1.0e-9)];
    let found = first_cusp(&t_values, &magnitudes, 3, s(1.0e-6)).unwrap();
    assert_eq!(f(found.get()), 0.5);
    let magnitudes = [s(0.0), s(1.0e-9), s(1.0e-9)];
    let found = first_cusp(&t_values, &magnitudes, 3, s(1.0e-6)).unwrap();
    assert_eq!(f(found.get()), 0.25);
}

#[test]
fn first_cusp_looks_at_the_count_only() {
    let t_values = [n(0.0), n(0.25), n(0.5)];
    let magnitudes = [s(0.0), s(1.0e-3), s(1.0e-9)];
    assert!(first_cusp(&t_values, &magnitudes, 2, s(1.0e-6)).is_none());
    assert!(first_cusp(&t_values, &magnitudes, 0, s(1.0e-6)).is_none());
    assert!(first_cusp(&t_values, &magnitudes, 3, s(1.0e-6)).is_some());
}

#[test]
fn first_cusp_skips_the_ends() {
    let t_values = [n(0.0), n(1.0), n(-0.0)];
    let magnitudes = [s(0.0), s(0.0), s(0.0)];
    assert!(first_cusp(&t_values, &magnitudes, 3, s(1.0e-6)).is_none());
}

#[test]
fn first_cusp_none_where_no_derivative_is_short() {
    let t_values = [n(0.25), n(0.5), n(0.75)];
    let magnitudes = [s(1.0), s(1.0e-6), s(f32::NAN)];
    assert!(first_cusp(&t_values, &magnitudes, 3, s(1.0e-6)).is_none());
    assert!(first_cusp(&t_values, &[s(0.0), s(0.0), s(0.0)], 3, s(f32::NAN)).is_none());
}

#[test]
fn first_cusp_is_held_inside_the_interval() {
    let t_values = [n(1.0e-20), n(0.5), n(0.5)];
    let magnitudes = [s(0.0), s(0.0), s(0.0)];
    let found = first_cusp(&t_values, &magnitudes, 1, s(1.0e-6)).unwrap();
    assert_eq!(f(found.get()), f32::EPSILON);
    let t_values = [n(0.99999994), n(0.5), n(0.5)];
    let found = first_cusp(&t_values, &magnitudes, 1, s(1.0e-6)).unwrap();
    assert_eq!(f(found.get()), 1.0 - f32::EPSILON);
}

#[test]
fn three_roots_are_held_sorted_and_counted() {
    let mut t_values = [n(0.5), n(0.5), n(0.5)];
    let len = order_three_roots(s(1.0000001), s(-2.0e-8), s(0.5), &mut t_values);
    assert_eq!(len, 3);
    assert_eq!(values(&t_values), [0.0, 0.5, 1.0]);
    let len = order_three_roots(s(2.0), s(0.25), s(7.0), &mut t_values);
    assert_eq!(len, 2);
    assert_eq!(values(&t_values), [0.25, 1.0, 1.0]);
    let len = order_three_roots(s(-1.0), s(0.25), s(-3.0), &mut t_values);
    assert_eq!(len, 2);
    assert_eq!(values(&t_values), [0.0, 0.25, 0.25]);
    let len = order_three_roots(s(f32::NAN), s(f32::INFINITY), s(0.75), &mut t_values);
    assert_eq!(len, 2);
    assert_eq!(values(&t_values), [0.0, 0.75, 0.75]);
    let len = order_three_roots(s(-2.0), s(-1.0), s(0.5), &mut t_values);
    assert_eq!(len, 2);
    assert_eq!(values(&t_values), [0.0, 0.5, 0.5]);
    let len = order_three_roots(s(-2.0), s(-1.0), s(-0.5), &mut t_values);
    assert_eq!(len, 1);
    assert_eq!(values(&t_values), [0.0, 0.0, 0.0]);
}

#[test]
fn default_coefficients_are_all_zero() {
    let q = QuadCoeff::default();
    for pair in [q.a, q.b, q.c] {
        assert_eq!((pair.x().to_bits(), pair.y().to_bits()), (0, 0));
    }
    let c = CubicCoeff::default();
    for pair in [c.a, c.b, c.c, c.d] {
        assert_eq!((pair.x().to_bits(), pair.y().to_bits()), (0, 0));
    }
}

#[test]
fn cosines_are_held_to_their_range() {
    let samples = [
        0.0f32,
        -0.0,
        0.5,
        -0.5,
        1.0,
        -1.0,
        1.0000001,
        -1.0000001,
        0.99999994,
        -0.99999994,
        3.0,
        -3.0,
        f32::INFINITY,
        f32::NEG_INFINITY,
        f32::NAN,
    ];
    for x in samples {
        let expected = 1.0f32.min(x).max(-1.0);
        assert_eq!(bound_cosine(s(x)).to_bits(), expected.to_bits());
    }
    assert_eq!(f(bound_cosine(s(f32::NAN))), 1.0);
}

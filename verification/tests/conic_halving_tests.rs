use path_kernel::arithmetic::{ChopTerms, CurveArithmetic};
use path_kernel::conic::{subdivide, Conic};
use path_kernel::normalized::NormalizedF32;
use path_kernel::f32x2_t::f32x2;
use path_kernel::path_geometry::QuadCoeff;
use path_kernel::point::Point;
use path_kernel::scalar::Scalar;

fn scalar(x: f32) -> Scalar {
    Scalar::from_bits(x.to_bits())
}

fn float(s: Scalar) -> f32 {
    f32::from_bits(s.to_bits())
}

fn point(x: f32, y: f32) -> Point {
    Point::from_xy(scalar(x), scalar(y))
}

fn xy(p: Point) -> (f32, f32) {
    (float(p.x), float(p.y))
}

fn points(c: &Conic) -> [(f32, f32); 3] {
    [xy(c.points[0]), xy(c.points[1]), xy(c.points[2])]
}

/// An arithmetic that computes, for every conic, the control points and
/// the middle that it is told to, and the products and offsets of the
/// machine.
struct Scripted {
    terms: ChopTerms,
    midpoint: Point,
}

impl Scripted {
    /// The halves are given whole, to be read beside what comes out: the
    /// arithmetic takes the two control points and the middle from them.
    fn chopping_into(first: [(f32, f32); 3], second: [(f32, f32); 3]) -> Scripted {
        let terms = ChopTerms {
            first_control: point(first[1].0, first[1].1),
            middle: point(first[2].0, first[2].1),
            second_control: point(second[1].0, second[1].1),
            weight: scalar(0.5),
        };
        Scripted { terms, midpoint: point(-1.0, -1.0) }
    }
}

impl CurveArithmetic for Scripted {
    fn chop(&self, _conic: Conic) -> ChopTerms {
        self.terms
    }

    fn chop_midpoint(&self, _conic: Conic) -> Point {
        self.midpoint
    }

    fn between_product(&self, a: Scalar, b: Scalar, c: Scalar) -> Scalar {
        scalar((float(a) - float(b)) * (float(c) - float(b)))
    }

    fn offset(&self, value: Scalar, from: Scalar) -> Scalar {
        scalar(float(value) - float(from))
    }

    fn max_curvature_coefficients(&self, _src: &[Point; 4]) -> [Scalar; 4] {
        unreachable!()
    }

    fn quad_max_curvature_ratio(&self, _src: &[Point; 3]) -> (Scalar, Scalar) {
        unreachable!()
    }

    fn inflection_coefficients(&self, _src: &[Point; 4]) -> [Scalar; 3] {
        unreachable!()
    }

    fn difference(&self, _to: Point, _from: Point) -> Point {
        unreachable!()
    }

    fn quad_derivative(&self, _src: &[Point; 3], _t: NormalizedF32) -> Point {
        unreachable!()
    }

    fn cubic_derivative_coefficients(&self, _src: &[Point; 4]) -> QuadCoeff {
        unreachable!()
    }

    fn quad_coefficients(&self, _points: &[Point; 3]) -> (f32x2, f32x2) {
        unreachable!()
    }

    fn cubic_coefficients(&self, _points: &[Point; 4]) -> (f32x2, f32x2, f32x2) {
        unreachable!()
    }

    fn times_plus(&self, _a: Scalar, _t: Scalar, _b: Scalar) -> Scalar {
        unreachable!()
    }

    fn side_product(&self, _src: &[Point; 4], _test_index: usize, _line_index: usize) -> Scalar {
        unreachable!()
    }

    fn length_sqd(&self, _vector: Point) -> Scalar {
        unreachable!()
    }

    fn cubic_precision(&self, _src: &[Point; 4]) -> Scalar {
        unreachable!()
    }

    fn quad_error(&self, _conic: Conic) -> Scalar {
        unreachable!()
    }

    fn quarter(&self, _error: Scalar) -> Scalar {
        unreachable!()
    }

    fn arc_products(&self, _u_start: Point, _u_stop: Point) -> (Scalar, Scalar) {
        unreachable!()
    }

    fn arc_control(&self, _from: Point, _to: Point, _dot: Scalar) -> (Point, Scalar) {
        unreachable!()
    }
}

/// An arithmetic that chops a conic at the middle of its control polygon,
/// which rounds nothing where the coordinates are small whole numbers.
struct Midpoints;

impl CurveArithmetic for Midpoints {
    fn chop(&self, conic: Conic) -> ChopTerms {
        let p = points(&conic);
        let mid = |a: (f32, f32), b: (f32, f32)| ((a.0 + b.0) / 2.0, (a.1 + b.1) / 2.0);
        let left = mid(p[0], p[1]);
        let right = mid(p[1], p[2]);
        let middle = mid(left, right);
        ChopTerms {
            first_control: point(left.0, left.1),
            middle: point(middle.0, middle.1),
            second_control: point(right.0, right.1),
            weight: conic.weight,
        }
    }

    fn chop_midpoint(&self, _conic: Conic) -> Point {
        unreachable!()
    }

    fn between_product(&self, a: Scalar, b: Scalar, c: Scalar) -> Scalar {
        scalar((float(a) - float(b)) * (float(c) - float(b)))
    }

    fn offset(&self, _value: Scalar, _from: Scalar) -> Scalar {
        unreachable!()
    }

    fn max_curvature_coefficients(&self, _src: &[Point; 4]) -> [Scalar; 4] {
        unreachable!()
    }

    fn quad_max_curvature_ratio(&self, _src: &[Point; 3]) -> (Scalar, Scalar) {
        unreachable!()
    }

    fn inflection_coefficients(&self, _src: &[Point; 4]) -> [Scalar; 3] {
        unreachable!()
    }

    fn difference(&self, _to: Point, _from: Point) -> Point {
        unreachable!()
    }

    fn quad_derivative(&self, _src: &[Point; 3], _t: NormalizedF32) -> Point {
        unreachable!()
    }

    fn cubic_derivative_coefficients(&self, _src: &[Point; 4]) -> QuadCoeff {
        unreachable!()
    }

    fn quad_coefficients(&self, _points: &[Point; 3]) -> (f32x2, f32x2) {
        unreachable!()
    }

    fn cubic_coefficients(&self, _points: &[Point; 4]) -> (f32x2, f32x2, f32x2) {
        unreachable!()
    }

    fn times_plus(&self, _a: Scalar, _t: Scalar, _b: Scalar) -> Scalar {
        unreachable!()
    }

    fn side_product(&self, _src: &[Point; 4], _test_index: usize, _line_index: usize) -> Scalar {
        unreachable!()
    }

    fn length_sqd(&self, _vector: Point) -> Scalar {
        unreachable!()
    }

    fn cubic_precision(&self, _src: &[Point; 4]) -> Scalar {
        unreachable!()
    }

    fn quad_error(&self, _conic: Conic) -> Scalar {
        unreachable!()
    }

    fn quarter(&self, _error: Scalar) -> Scalar {
        unreachable!()
    }

    fn arc_products(&self, _u_start: Point, _u_stop: Point) -> (Scalar, Scalar) {
        unreachable!()
    }

    fn arc_control(&self, _from: Point, _to: Point, _dot: Scalar) -> (Point, Scalar) {
        unreachable!()
    }
}

fn rising() -> Conic {
    Conic::new(point(0.0, 0.0), point(5.0, 5.0), point(10.0, 10.0), scalar(0.5))
}

#[test]
fn halves_in_order_are_left_alone() {
    let first = [(0.0, 0.0), (2.0, 2.0), (5.0, 5.0)];
    let second = [(5.0, 5.0), (8.0, 8.0), (10.0, 10.0)];
    let (a, b) = rising().halve(&Scripted::chopping_into(first, second));
    assert_eq!(points(&a), first);
    assert_eq!(points(&b), second);
}

#[test]
fn a_middle_beyond_the_end_moves_to_the_end() {
    let first = [(0.0, 0.0), (2.0, 2.0), (5.0, 10.5)];
    let second = [(5.0, 10.5), (8.0, 10.2), (10.0, 10.0)];
    let (a, b) = rising().halve(&Scripted::chopping_into(first, second));
    assert_eq!(points(&a), [(0.0, 0.0), (2.0, 2.0), (5.0, 10.0)]);
    // The control point of the second half lay between its ends no more.
    assert_eq!(points(&b), [(5.0, 10.0), (8.0, 10.0), (10.0, 10.0)]);
}

#[test]
fn a_middle_before_the_start_moves_to_the_start() {
    let first = [(0.0, 0.0), (2.0, -0.2), (5.0, -0.5)];
    let second = [(5.0, -0.5), (8.0, 8.0), (10.0, 10.0)];
    let (a, b) = rising().halve(&Scripted::chopping_into(first, second));
    assert_eq!(points(&a), [(0.0, 0.0), (2.0, 0.0), (5.0, 0.0)]);
    assert_eq!(points(&b), [(5.0, 0.0), (8.0, 8.0), (10.0, 10.0)]);
}

#[test]
fn a_control_point_out_of_order_moves_to_the_outer_end() {
    let first = [(0.0, 0.0), (2.0, 6.0), (5.0, 5.0)];
    let second = [(5.0, 5.0), (8.0, 4.0), (10.0, 10.0)];
    let (a, b) = rising().halve(&Scripted::chopping_into(first, second));
    assert_eq!(points(&a), [(0.0, 0.0), (2.0, 0.0), (5.0, 5.0)]);
    assert_eq!(points(&b), [(5.0, 5.0), (8.0, 10.0), (10.0, 10.0)]);
}

#[test]
fn only_y_is_moved() {
    let first = [(0.0, 0.0), (-20.0, 6.0), (50.0, 11.0)];
    let second = [(50.0, 11.0), (80.0, -4.0), (10.0, 10.0)];
    let (a, b) = rising().halve(&Scripted::chopping_into(first, second));
    assert_eq!(points(&a), [(0.0, 0.0), (-20.0, 6.0), (50.0, 10.0)]);
    assert_eq!(points(&b), [(50.0, 10.0), (80.0, 10.0), (10.0, 10.0)]);
}

#[test]
fn a_conic_that_turns_along_y_is_chopped_as_it_comes() {
    let turning = Conic::new(point(0.0, 0.0), point(5.0, 20.0), point(10.0, 10.0), scalar(0.5));
    let first = [(0.0, 0.0), (2.0, 30.0), (5.0, 40.0)];
    let second = [(5.0, 40.0), (8.0, -5.0), (10.0, 10.0)];
    let (a, b) = turning.halve(&Scripted::chopping_into(first, second));
    assert_eq!(points(&a), first);
    assert_eq!(points(&b), second);
}

#[test]
fn a_falling_conic_is_kept_in_order_too() {
    let falling = Conic::new(point(0.0, 10.0), point(5.0, 5.0), point(10.0, 0.0), scalar(0.5));
    let first = [(0.0, 10.0), (2.0, 11.0), (5.0, 5.0)];
    let second = [(5.0, 5.0), (8.0, -1.0), (10.0, 0.0)];
    let (a, b) = falling.halve(&Scripted::chopping_into(first, second));
    assert_eq!(points(&a), [(0.0, 10.0), (2.0, 10.0), (5.0, 5.0)]);
    assert_eq!(points(&b), [(5.0, 5.0), (8.0, 0.0), (10.0, 0.0)]);
}

#[test]
fn a_middle_that_is_not_finite_is_computed_again() {
    let first = [(0.0, 0.0), (2.0, 2.0), (f32::INFINITY, 5.0)];
    let second = [(f32::INFINITY, 5.0), (8.0, 8.0), (10.0, 10.0)];
    let mut arithmetic = Scripted::chopping_into(first, second);
    arithmetic.midpoint = point(5.0, 5.0);
    let (a, b) = rising().chop(&arithmetic);
    assert_eq!(points(&a), [(0.0, 0.0), (2.0, 2.0), (5.0, 5.0)]);
    assert_eq!(points(&b), [(5.0, 5.0), (8.0, 8.0), (10.0, 10.0)]);
    let (a, b) = rising().halve(&arithmetic);
    assert_eq!(points(&a), [(0.0, 0.0), (2.0, 2.0), (5.0, 5.0)]);
    assert_eq!(points(&b), [(5.0, 5.0), (8.0, 8.0), (10.0, 10.0)]);
}

#[test]
fn the_halves_keep_the_ends_of_the_conic_whatever_is_computed() {
    let first = [(70.0, 70.0), (2.0, 2.0), (5.0, 5.0)];
    let second = [(5.0, 5.0), (8.0, 8.0), (90.0, 90.0)];
    let (a, b) = rising().chop(&Scripted::chopping_into(first, second));
    assert_eq!(points(&a), [(0.0, 0.0), (2.0, 2.0), (5.0, 5.0)]);
    assert_eq!(points(&b), [(5.0, 5.0), (8.0, 8.0), (10.0, 10.0)]);
    assert_eq!(float(a.weight), 0.5);
    assert_eq!(float(b.weight), 0.5);
    let (a, b) = rising().halve(&Scripted::chopping_into(first, second));
    assert_eq!(xy(a.points[0]), (0.0, 0.0));
    assert_eq!(xy(b.points[2]), (10.0, 10.0));
    assert_eq!(xy(a.points[2]), xy(b.points[0]));
}

#[test]
fn a_product_that_is_no_number_says_not_between() {
    // The control point lies at no place along y, so the conic does not
    // count as running in one direction, and the halves stay as chopped.
    let lost = Conic::new(point(0.0, 0.0), point(5.0, f32::NAN), point(10.0, 10.0), scalar(0.5));
    let first = [(0.0, 0.0), (2.0, 30.0), (5.0, 40.0)];
    let second = [(5.0, 40.0), (8.0, -5.0), (10.0, 10.0)];
    let (a, b) = lost.halve(&Scripted::chopping_into(first, second));
    assert_eq!(points(&a), first);
    assert_eq!(points(&b), second);
}

#[test]
fn a_finite_middle_is_not_computed_again() {
    let first = [(0.0, 0.0), (2.0, 2.0), (5.0, 5.0)];
    let second = [(5.0, 5.0), (8.0, 8.0), (10.0, 10.0)];
    let (a, b) = rising().chop(&Scripted::chopping_into(first, second));
    assert_eq!(points(&a), first);
    assert_eq!(points(&b), second);
}

#[test]
fn subdivide_writes_the_pieces_in_the_order_of_the_curve() {
    let conic = Conic::new(point(0.0, 0.0), point(64.0, 128.0), point(128.0, 0.0), scalar(1.0));
    let mut chain = [point(-1.0, -1.0); 12];
    let next = subdivide(&conic, &mut chain, 2, 2, &Midpoints);
    assert_eq!(next, 10);
    let written: Vec<(f32, f32)> = chain.iter().map(|p| xy(*p)).collect();
    assert_eq!(
        written,
        vec![
            (-1.0, -1.0),
            (-1.0, -1.0),
            (16.0, 32.0),
            (32.0, 48.0),
            (48.0, 64.0),
            (64.0, 64.0),
            (80.0, 64.0),
            (96.0, 48.0),
            (112.0, 32.0),
            (128.0, 0.0),
            (-1.0, -1.0),
            (-1.0, -1.0),
        ]
    );
}

#[test]
fn subdivide_without_a_halving_writes_the_conic_itself() {
    let conic = Conic::new(point(0.0, 0.0), point(64.0, 128.0), point(128.0, 0.0), scalar(1.0));
    let mut chain = [point(-1.0, -1.0); 3];
    let next = subdivide(&conic, &mut chain, 0, 0, &Midpoints);
    assert_eq!(next, 2);
    assert_eq!(xy(chain[0]), (64.0, 128.0));
    assert_eq!(xy(chain[1]), (128.0, 0.0));
    assert_eq!(xy(chain[2]), (-1.0, -1.0));
}

#[test]
fn subdivide_fills_a_chain_of_every_level() {
    let conic = Conic::new(point(0.0, 0.0), point(64.0, 128.0), point(128.0, 0.0), scalar(1.0));
    for level in 0..=4u8 {
        let mut chain = [point(-1.0, -1.0); 33];
        let next = subdivide(&conic, &mut chain, 0, level, &Midpoints);
        assert_eq!(next, 2usize << level);
        assert_eq!(xy(chain[next - 1]), (128.0, 0.0));
        for i in 1..next {
            assert!(xy(chain[i]).0 > xy(chain[i - 1]).0);
        }
        assert_eq!(xy(chain[next]), (-1.0, -1.0));
    }
}

//! The arithmetic that the kernel leaves to its caller.
//!
//! The kernel compares and selects; it never rounds. Where a function of
//! the kernel needs a sum, a product, a quotient or a root, it asks its
//! caller for it, through one of the traits of this module. No method
//! promises anything of what it returns: whatever comes back, the kernel
//! checks what it needs to know, and its contracts hold.
//!
//! A method returns numbers that were computed, and nothing else. What is
//! only copied from an argument, what is zero by construction, and what a
//! comparison decides is the kernel's own work: it is done, and proved,
//! where the method is called.

use vstd::prelude::*;
use crate::conic::Conic;
use crate::f32x2_t::f32x2;
use crate::normalized::NormalizedF32;
use crate::path_geometry::QuadCoeff;
use crate::point::Double;
use crate::point::Point;
use crate::scalar::Scalar;
use crate::transform::Transform;

verus! {

/// The terms of the closed formula for the roots of the cubic
/// `t^3 + a t^2 + b t + c`.
#[derive(Copy, Clone, Debug)]
pub struct CubicTerms {
    /// `(a^2 - 3b) / 9`.
    pub q: Scalar,
    /// `(2a^3 - 9ab + 27c) / 54`.
    pub r: Scalar,
    /// `r^2 - q^3`: below zero where the cubic has three real roots.
    pub r2_minus_q3: Scalar,
    /// `a / 3`.
    pub adiv3: Scalar,
}

/// What chopping a conic at the middle of its parameter range computes, the
/// conic having the control points `p0`, `p1`, `p2` and the weight `w`.
#[derive(Copy, Clone, Debug)]
pub struct ChopTerms {
    /// The control point of the first half: `(p0 + w p1) / (1 + w)`.
    pub first_control: Point,
    /// The point at the middle of the conic, in single precision:
    /// `(p0 + 2 w p1 + p2) / (2 (1 + w))`.
    pub middle: Point,
    /// The control point of the second half: `(w p1 + p2) / (1 + w)`.
    pub second_control: Point,
    /// The weight of either half: the square root of `(1 + w) / 2`.
    pub weight: Scalar,
}

/// The coefficients of a transform that scales and translates and does not
/// skew.
#[derive(Copy, Clone, Debug)]
pub struct ScaleTranslate {
    pub sx: Scalar,
    pub sy: Scalar,
    pub tx: Scalar,
    pub ty: Scalar,
}

/// The passage between single and double precision.
pub trait PrecisionArithmetic {
    /// The double-precision value that is the same number as `value`.
    fn widen(&self, value: Scalar) -> Double;

    /// The single-precision value nearest to `value`.
    fn narrow(&self, value: Double) -> Scalar;
}

/// The four operations on single values.
pub trait ScalarArithmetic {
    /// `a + b`.
    fn sum(&self, a: Scalar, b: Scalar) -> Scalar;

    /// `a - b`.
    fn difference(&self, a: Scalar, b: Scalar) -> Scalar;

    /// `a * b`.
    fn product(&self, a: Scalar, b: Scalar) -> Scalar;

    /// `a / b`.
    fn quotient(&self, a: Scalar, b: Scalar) -> Scalar;
}

/// The arithmetic of rectangles.
pub trait RectArithmetic {
    /// The distance from `low` to `high`: `high - low`.
    fn extent(&self, low: Scalar, high: Scalar) -> Scalar;

    /// The integer nearest to `value`; the nearest 32-bit signed integer
    /// where `value` lies beyond them.
    fn saturate_round(&self, value: Scalar) -> i32;
}

/// The arithmetic of root finding.
pub trait RootArithmetic {
    /// `numer / denom`.
    fn divide(&self, numer: Scalar, denom: Scalar) -> Scalar;

    /// The square root of the discriminant `b^2 - 4ac`, computed in double
    /// precision and then narrowed. It is no number where the discriminant
    /// is negative.
    fn discriminant_root(&self, a: Scalar, b: Scalar, c: Scalar) -> Scalar;

    /// `-(b + r) / 2`.
    fn half_sum_negated(&self, b: Scalar, r: Scalar) -> Scalar;

    /// `-(b - r) / 2`.
    fn half_difference_negated(&self, b: Scalar, r: Scalar) -> Scalar;

    /// The terms of the closed formula for the roots of
    /// `coeff[0] t^3 + coeff[1] t^2 + coeff[2] t + coeff[3]`, which is
    /// divided by its leading coefficient first.
    fn cubic_terms(&self, coeff: &[Scalar; 4]) -> CubicTerms;

    /// The cosine of the angle whose thirds give the three real roots of a
    /// cubic with `r^2 - q^3` below zero: `r / sqrt(q^3)`. Rounding can take
    /// it slightly outside `[-1, 1]`.
    fn angle_cosine(&self, terms: CubicTerms) -> Scalar;

    /// The three real roots of a cubic with `r^2 - q^3` below zero, by the
    /// cosines of a third of the angle with the cosine `cosine` and of that
    /// third moved by a third of a turn either way: each times
    /// `-2 sqrt(q)`, less `a / 3`.
    fn three_cubic_roots(&self, terms: CubicTerms, cosine: Scalar) -> (Scalar, Scalar, Scalar);

    /// The cube root of `magnitude + sqrt(r2_minus_q3)`.
    fn cube_root_term(&self, magnitude: Scalar, r2_minus_q3: Scalar) -> Scalar;

    /// `a + q / a`.
    fn plus_quotient(&self, a: Scalar, q: Scalar) -> Scalar;

    /// `a - b`.
    fn minus(&self, a: Scalar, b: Scalar) -> Scalar;

    /// The numerator and the denominator of the parameter at which the
    /// derivative of the quadratic through the values `a`, `b` and `c`
    /// vanishes: `a - b` and `a - 2b + c`.
    fn quad_extremum_ratio(&self, a: Scalar, b: Scalar, c: Scalar) -> (Scalar, Scalar);

    /// The coefficients, highest power first, of a third of the derivative
    /// of the cubic through the values `a`, `b`, `c` and `d`.
    fn cubic_extrema_coefficients(&self, a: Scalar, b: Scalar, c: Scalar, d: Scalar) -> [Scalar; 3];
}

/// The arithmetic of curves.
pub trait CurveArithmetic {
    /// The coefficients, highest power first, of the cubic in `t` that is
    /// the dot product of the first and the second derivative of the cubic
    /// curve through `src`.
    fn max_curvature_coefficients(&self, src: &[Point; 4]) -> [Scalar; 4];

    /// The numerator and the denominator of the parameter at which the
    /// curvature of the quadratic through `src` is greatest.
    fn quad_max_curvature_ratio(&self, src: &[Point; 3]) -> (Scalar, Scalar);

    /// The coefficients, highest power first, of the quadratic in `t` that
    /// is the cross product of the first and the second derivative of the
    /// cubic curve through `src`.
    fn inflection_coefficients(&self, src: &[Point; 4]) -> [Scalar; 3];

    /// The vector from `from` to `to`.
    fn difference(&self, to: Point, from: Point) -> Point;

    /// The derivative at `t` of the quadratic through `src`.
    fn quad_derivative(&self, src: &[Point; 3], t: NormalizedF32) -> Point;

    /// The coefficients of a third of the derivative of the cubic through
    /// `src`, which is a quadratic.
    fn cubic_derivative_coefficients(&self, src: &[Point; 4]) -> QuadCoeff;

    /// The two higher coefficients of the quadratic through `points`, `a`
    /// and `b` of `a t^2 + b t + c`: `p2 - 2 p1 + p0` and `2 (p1 - p0)`.
    fn quad_coefficients(&self, points: &[Point; 3]) -> (f32x2, f32x2);

    /// The three higher coefficients of the cubic through `points`, `a`,
    /// `b` and `c` of `a t^3 + b t^2 + c t + d`: `p3 + 3 (p1 - p2) - p0`,
    /// `3 (p2 - 2 p1 + p0)` and `3 (p1 - p0)`.
    fn cubic_coefficients(&self, points: &[Point; 4]) -> (f32x2, f32x2, f32x2);

    /// `a * t + b`: one step of Horner's scheme.
    fn times_plus(&self, a: Scalar, t: Scalar, b: Scalar) -> Scalar;

    /// The product of the two cross products that tell on which side of the
    /// line through `src[line_index]` and `src[line_index + 1]` the points
    /// `src[test_index]` and `src[test_index + 1]` lie: that of the line with
    /// the vector from `src[line_index]` to each of the two.
    fn side_product(&self, src: &[Point; 4], test_index: usize, line_index: usize) -> Scalar;

    /// The squared length of a vector.
    fn length_sqd(&self, vector: Point) -> Scalar;

    /// The squared length under which the derivative of the cubic through
    /// `src` counts as zero: a small part of the squared size of the cubic.
    fn cubic_precision(&self, src: &[Point; 4]) -> Scalar;

    /// What chopping a conic at the middle of its parameter range computes,
    /// in single precision: the control points of the two halves, the
    /// point at the middle, and the weight of the halves.
    fn chop(&self, conic: Conic) -> ChopTerms;

    /// The point at the middle of the parameter range of a conic, computed
    /// in double precision and then narrowed.
    fn chop_midpoint(&self, conic: Conic) -> Point;

    /// `(a - b) * (c - b)`: at most zero where `b` lies between `a` and `c`.
    fn between_product(&self, a: Scalar, b: Scalar, c: Scalar) -> Scalar;

    /// `value - from`: how far `value` lies from `from`, with its sign.
    fn offset(&self, value: Scalar, from: Scalar) -> Scalar;

    /// An upper bound of the distance between a conic and the quadratic
    /// through its control points.
    fn quad_error(&self, conic: Conic) -> Scalar;

    /// A quarter of `error`: the bound that one more halving leaves.
    fn quarter(&self, error: Scalar) -> Scalar;

    /// The dot and the cross product of two vectors.
    fn arc_products(&self, u_start: Point, u_stop: Point) -> (Scalar, Scalar);

    /// The control point and the weight of the conic that is the arc of the
    /// unit circle from `from` to `to`, less than a quarter of a turn apart,
    /// `dot` being the dot product of the two: the sum of the two scaled to
    /// the length that is one over the cosine of half the angle between
    /// them, and that cosine.
    fn arc_control(&self, from: Point, to: Point, dot: Scalar) -> (Point, Scalar);
}

/// The arithmetic of affine transforms.
pub trait TransformArithmetic {
    /// The scales and the translation of the product of two transforms of
    /// which neither skews: `a.sx b.sx`, `a.sy b.sy`, `a.sx b.tx + a.tx` and
    /// `a.sy b.ty + a.ty`.
    fn concat_scale_translate(&self, a: Transform, b: Transform) -> ScaleTranslate;

    /// The product of two transforms.
    fn concat_general(&self, a: Transform, b: Transform) -> Transform;

    /// The point moved by the translation of `ts`.
    fn map_translate(&self, ts: Transform, point: Point) -> Point;

    /// The point scaled, then moved, by `ts`, which does not skew.
    fn map_scale_translate(&self, ts: Transform, point: Point) -> Point;

    /// The point mapped by the full matrix of `ts`.
    fn map_general(&self, ts: Transform, point: Point) -> Point;

    /// The scales and the translation of the inverse of a transform that
    /// scales and does not skew: `1 / sx`, `1 / sy`, `-tx / sx` and
    /// `-ty / sy`.
    fn invert_scale_translate(&self, ts: Transform) -> ScaleTranslate;

    /// The determinant of the matrix of `ts`, computed in double precision
    /// and then narrowed.
    fn determinant(&self, ts: Transform) -> Scalar;

    /// The inverse of a transform whose determinant is not nearly zero.
    fn invert_general(&self, ts: Transform) -> Transform;

    /// The sine and the cosine of `angle`, which is given in degrees.
    fn sin_cos(&self, angle: Scalar) -> (Scalar, Scalar);

    /// The lengths of the two columns of the matrix of `ts`.
    fn scale_magnitudes(&self, ts: Transform) -> (Scalar, Scalar);
}

} // verus!

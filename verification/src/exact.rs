//! What the constructions of the kernel give where the arithmetic rounds
//! nothing.
//!
//! The arithmetic of the machine rounds, and so the laws of curves and of
//! transforms hold of its results only within a tolerance. The laws of this
//! module say what part of that is the kernel's: none. Where no step of the
//! arithmetic was rounded, a chop shares the very point of the curve, and
//! composing transforms is associative to the last number, an inverse undoes
//! its transform, and the roots of a quadratic solve it. The inverse of a
//! translation, which the kernel finds without arithmetic, undoes it exactly
//! whatever the arithmetic.

use vstd::prelude::*;
use vstd::arithmetic::mul::lemma_mul_is_associative;
use vstd::arithmetic::mul::lemma_mul_is_commutative;
use vstd::arithmetic::mul::lemma_mul_is_distributive_add;
use vstd::arithmetic::mul::lemma_mul_is_distributive_add_other_way;
use vstd::arithmetic::mul::lemma_mul_equality_converse;
use vstd::arithmetic::power2::lemma_pow2_pos;
use vstd::arithmetic::power2::pow2;
use crate::point::Point;
use crate::scalar::Scalar;
use crate::transform::InvertPath;
use crate::transform::Transform;
use crate::value::lemma_number_of_negated_and_absolute;
use crate::arithmetic::TransformArithmetic;
use crate::value::lemma_numbers_of_the_constants;
use crate::value::lemma_order_is_that_of_the_numbers;
use crate::value::lemma_sign_of_the_number;

verus! {

/// The number one, in units of `2^-149`.
pub open spec fn one() -> int {
    pow2(149) as int
}

/// `r` is `v0 + (v1 - v0) * t`, with nothing rounded.
pub open spec fn is_exact_interp(v0: Scalar, v1: Scalar, t: Scalar, r: Scalar) -> bool {
    r.scaled_value() * one() == v0.scaled_value() * one() + (v1.scaled_value() - v0.scaled_value())
        * t.scaled_value()
}

/// `r` is the point between `v0` and `v1` at `t`, with nothing rounded.
pub open spec fn is_exact_point_interp(v0: Point, v1: Point, t: Scalar, r: Point) -> bool {
    is_exact_interp(v0.x, v1.x, t, r.x) && is_exact_interp(v0.y, v1.y, t, r.y)
}

/// None of the three interpolations behind a chopped quadratic was rounded.
pub open spec fn quad_chop_is_exact(src: Seq<Point>, t: Scalar, dst: [Point; 5]) -> bool {
    &&& is_exact_point_interp(src[0], src[1], t, dst[1])
    &&& is_exact_point_interp(src[1], src[2], t, dst[3])
    &&& is_exact_point_interp(dst[1], dst[3], t, dst[2])
}

/// None of the six interpolations behind a chopped cubic was rounded, `bc`
/// being the point between the two control points.
pub open spec fn cubic_chop_is_exact(src: [Point; 4], t: Scalar, dst: Seq<Point>, bc: Point) -> bool {
    &&& is_exact_point_interp(src[0], src[1], t, dst[1])
    &&& is_exact_point_interp(src[1], src[2], t, bc)
    &&& is_exact_point_interp(src[2], src[3], t, dst[5])
    &&& is_exact_point_interp(dst[1], bc, t, dst[2])
    &&& is_exact_point_interp(bc, dst[5], t, dst[4])
    &&& is_exact_point_interp(dst[2], dst[4], t, dst[3])
}

/// The value at `t` of the quadratic through `p0`, `p1` and `p2`, times the
/// square of `u`, which is the number one in the units of `t`:
/// `p0 (1 - t)^2 + 2 p1 t (1 - t) + p2 t^2`.
pub open spec fn quad_at(p0: int, p1: int, p2: int, t: int, u: int) -> int {
    p0 * ((u - t) * (u - t)) + 2 * p1 * (t * (u - t)) + p2 * (t * t)
}

/// The value at `t` of the cubic through `p0`, `p1`, `p2` and `p3`, times
/// the cube of `u`, which is the number one in the units of `t`:
/// `p0 (1 - t)^3 + 3 p1 t (1 - t)^2 + 3 p2 t^2 (1 - t) + p3 t^3`.
pub open spec fn cubic_at(p0: int, p1: int, p2: int, p3: int, t: int, u: int) -> int {
    p0 * ((u - t) * (u - t) * (u - t)) + 3 * p1 * (t * ((u - t) * (u - t))) + 3 * p2 * (t * t * (u
        - t)) + p3 * (t * t * t)
}

/// An interpolation weighs its ends: `v0 + (v1 - v0) t` is
/// `v0 (1 - t) + v1 t`.
proof fn lemma_interp_weighs_its_ends(v0: int, v1: int, r: int, t: int, u: int)
    by (nonlinear_arith)
    requires
        r * u == v0 * u + (v1 - v0) * t,
    ensures
        r * u == v0 * (u - t) + v1 * t,
{
}

/// `(p s + q t) s + (q s + r t) t` is `p s^2 + 2 q t s + r t^2`.
proof fn lemma_weigh_twice(p: int, q: int, r: int, s: int, t: int)
    ensures
        (p * s + q * t) * s + (q * s + r * t) * t == p * (s * s) + 2 * q * (t * s) + r * (t * t),
{
    lemma_mul_is_distributive_add_other_way(s, p * s, q * t);
    lemma_mul_is_distributive_add_other_way(t, q * s, r * t);
    lemma_mul_is_associative(p, s, s);
    lemma_mul_is_associative(q, t, s);
    lemma_mul_is_associative(q, s, t);
    lemma_mul_is_associative(r, t, t);
    lemma_mul_is_commutative(s, t);
    lemma_mul_is_distributive_add_other_way(t * s, q, q);
    assert(2 * q == q + q);
}

/// Two exact interpolations, and a third between their results, give the
/// value of the quadratic.
proof fn lemma_quad_by_interpolation(
    p0: int,
    p1: int,
    p2: int,
    p01: int,
    p12: int,
    p012: int,
    t: int,
    u: int,
)
    requires
        p01 * u == p0 * u + (p1 - p0) * t,
        p12 * u == p1 * u + (p2 - p1) * t,
        p012 * u == p01 * u + (p12 - p01) * t,
    ensures
        p012 * (u * u) == quad_at(p0, p1, p2, t, u),
{
    let s = u - t;
    lemma_interp_weighs_its_ends(p0, p1, p01, t, u);
    lemma_interp_weighs_its_ends(p1, p2, p12, t, u);
    lemma_interp_weighs_its_ends(p01, p12, p012, t, u);
    let x01 = p01 * u;
    let x12 = p12 * u;
    let x012 = p012 * u;
    assert(p012 * (u * u) == x012 * u) by (nonlinear_arith)
        requires
            x012 == p012 * u,
    ;
    assert(x012 * u == x01 * s + x12 * t) by (nonlinear_arith)
        requires
            x012 == p01 * s + p12 * t,
            x01 == p01 * u,
            x12 == p12 * u,
    ;
    lemma_weigh_twice(p0, p1, p2, s, t);
}

/// Where no interpolation was rounded, the point that the two halves of a
/// chopped quadratic share is the point of the quadratic at `t`.
///
/// The premise names the three interpolations that chopping a quadratic
/// asks for, and says of each that its result is exact. Nothing else of the
/// chop is needed, so the law holds of any five points built that way,
/// whoever built them.
pub proof fn lemma_exact_quad_chop_shares_the_point_of_the_curve(
    src: Seq<Point>,
    t: Scalar,
    dst: [Point; 5],
)
    requires
        quad_chop_is_exact(src, t, dst),
    ensures
        dst[2].x.scaled_value() * (one() * one()) == quad_at(
            src[0].x.scaled_value(),
            src[1].x.scaled_value(),
            src[2].x.scaled_value(),
            t.scaled_value(),
            one(),
        ),
        dst[2].y.scaled_value() * (one() * one()) == quad_at(
            src[0].y.scaled_value(),
            src[1].y.scaled_value(),
            src[2].y.scaled_value(),
            t.scaled_value(),
            one(),
        ),
{
    lemma_quad_by_interpolation(
        src[0].x.scaled_value(),
        src[1].x.scaled_value(),
        src[2].x.scaled_value(),
        dst[1].x.scaled_value(),
        dst[3].x.scaled_value(),
        dst[2].x.scaled_value(),
        t.scaled_value(),
        one(),
    );
    lemma_quad_by_interpolation(
        src[0].y.scaled_value(),
        src[1].y.scaled_value(),
        src[2].y.scaled_value(),
        dst[1].y.scaled_value(),
        dst[3].y.scaled_value(),
        dst[2].y.scaled_value(),
        t.scaled_value(),
        one(),
    );
}

/// `(p s^2 + 2 q t s + r t^2) s + (q s^2 + 2 r t s + v t^2) t` is
/// `p s^3 + 3 q t s^2 + 3 r t^2 s + v t^3`.
proof fn lemma_weigh_thrice(p: int, q: int, r: int, v: int, s: int, t: int)
    ensures
        (p * (s * s) + 2 * q * (t * s) + r * (t * t)) * s + (q * (s * s) + 2 * r * (t * s) + v * (t
            * t)) * t == p * (s * s * s) + 3 * q * (t * (s * s)) + 3 * r * (t * t * s) + v * (t * t
            * t),
{
    let ss = s * s;
    let ts = t * s;
    let tt = t * t;
    // The first bracket, times s.
    lemma_mul_is_distributive_add_other_way(s, p * ss + 2 * q * ts, r * tt);
    lemma_mul_is_distributive_add_other_way(s, p * ss, 2 * q * ts);
    lemma_mul_is_associative(p, ss, s);
    lemma_mul_is_associative(2 * q, ts, s);
    lemma_mul_is_associative(r, tt, s);
    // The second bracket, times t.
    lemma_mul_is_distributive_add_other_way(t, q * ss + 2 * r * ts, v * tt);
    lemma_mul_is_distributive_add_other_way(t, q * ss, 2 * r * ts);
    lemma_mul_is_associative(q, ss, t);
    lemma_mul_is_associative(2 * r, ts, t);
    lemma_mul_is_associative(v, tt, t);
    // The mixed powers, each written one way.
    lemma_mul_is_associative(t, s, s);
    lemma_mul_is_commutative(ss, t);
    lemma_mul_is_associative(t, s, t);
    lemma_mul_is_commutative(t * s, t);
    lemma_mul_is_associative(t, t, s);
    assert(ts * s == t * ss);
    assert(ss * t == t * ss);
    assert(ts * t == tt * s);
    // One and two of a kind make three.
    lemma_mul_is_distributive_add_other_way(t * ss, 2 * q, q);
    lemma_mul_is_distributive_add_other_way(tt * s, r, 2 * r);
    assert(2 * q + q == 3 * q);
    assert(r + 2 * r == 3 * r);
}

/// Three exact interpolations, two between their results, and one between
/// the results of those, give the value of the cubic.
proof fn lemma_cubic_by_interpolation(
    p0: int,
    p1: int,
    p2: int,
    p3: int,
    ab: int,
    bc: int,
    cd: int,
    abc: int,
    bcd: int,
    abcd: int,
    t: int,
    u: int,
)
    requires
        ab * u == p0 * u + (p1 - p0) * t,
        bc * u == p1 * u + (p2 - p1) * t,
        cd * u == p2 * u + (p3 - p2) * t,
        abc * u == ab * u + (bc - ab) * t,
        bcd * u == bc * u + (cd - bc) * t,
        abcd * u == abc * u + (bcd - abc) * t,
    ensures
        abcd * (u * u * u) == cubic_at(p0, p1, p2, p3, t, u),
{
    let s = u - t;
    lemma_quad_by_interpolation(p0, p1, p2, ab, bc, abc, t, u);
    lemma_quad_by_interpolation(p1, p2, p3, bc, cd, bcd, t, u);
    lemma_interp_weighs_its_ends(abc, bcd, abcd, t, u);
    let a = abc * (u * u);
    let b = bcd * (u * u);
    let x = abcd * u;
    assert(abcd * (u * u * u) == x * (u * u)) by (nonlinear_arith)
        requires
            x == abcd * u,
    ;
    assert(x * (u * u) == a * s + b * t) by (nonlinear_arith)
        requires
            x == abc * s + bcd * t,
            a == abc * (u * u),
            b == bcd * (u * u),
    ;
    lemma_weigh_thrice(p0, p1, p2, p3, s, t);
}

/// Where no interpolation was rounded, the point that the two halves of a
/// chopped cubic share is the point of the cubic at `t`.
///
/// The premise names the six interpolations that chopping a cubic asks for,
/// and says of each that its result is exact. Nothing else of the chop is
/// needed, so the law holds of any points built that way, whoever built
/// them.
pub proof fn lemma_exact_cubic_chop_shares_the_point_of_the_curve(
    src: [Point; 4],
    t: Scalar,
    dst: Seq<Point>,
    bc: Point,
)
    requires
        dst.len() >= 7,
        cubic_chop_is_exact(src, t, dst, bc),
    ensures
        dst[3].x.scaled_value() * (one() * one() * one()) == cubic_at(
            src[0].x.scaled_value(),
            src[1].x.scaled_value(),
            src[2].x.scaled_value(),
            src[3].x.scaled_value(),
            t.scaled_value(),
            one(),
        ),
        dst[3].y.scaled_value() * (one() * one() * one()) == cubic_at(
            src[0].y.scaled_value(),
            src[1].y.scaled_value(),
            src[2].y.scaled_value(),
            src[3].y.scaled_value(),
            t.scaled_value(),
            one(),
        ),
{
    lemma_cubic_by_interpolation(
        src[0].x.scaled_value(),
        src[1].x.scaled_value(),
        src[2].x.scaled_value(),
        src[3].x.scaled_value(),
        dst[1].x.scaled_value(),
        bc.x.scaled_value(),
        dst[5].x.scaled_value(),
        dst[2].x.scaled_value(),
        dst[4].x.scaled_value(),
        dst[3].x.scaled_value(),
        t.scaled_value(),
        one(),
    );
    lemma_cubic_by_interpolation(
        src[0].y.scaled_value(),
        src[1].y.scaled_value(),
        src[2].y.scaled_value(),
        src[3].y.scaled_value(),
        dst[1].y.scaled_value(),
        bc.y.scaled_value(),
        dst[5].y.scaled_value(),
        dst[2].y.scaled_value(),
        dst[4].y.scaled_value(),
        dst[3].y.scaled_value(),
        t.scaled_value(),
        one(),
    );
}

/// `r` is the product of `a` and `b`, the transform that applies `b` first
/// and `a` then, with nothing rounded.
pub open spec fn is_exact_product(a: Transform, b: Transform, r: Transform) -> bool {
    let u = one();
    &&& r.sx.scaled_value() * u == a.sx.scaled_value() * b.sx.scaled_value() + a.kx.scaled_value()
        * b.ky.scaled_value()
    &&& r.ky.scaled_value() * u == a.ky.scaled_value() * b.sx.scaled_value() + a.sy.scaled_value()
        * b.ky.scaled_value()
    &&& r.kx.scaled_value() * u == a.sx.scaled_value() * b.kx.scaled_value() + a.kx.scaled_value()
        * b.sy.scaled_value()
    &&& r.sy.scaled_value() * u == a.ky.scaled_value() * b.kx.scaled_value() + a.sy.scaled_value()
        * b.sy.scaled_value()
    &&& r.tx.scaled_value() * u == a.sx.scaled_value() * b.tx.scaled_value() + a.kx.scaled_value()
        * b.ty.scaled_value() + a.tx.scaled_value() * u
    &&& r.ty.scaled_value() * u == a.ky.scaled_value() * b.tx.scaled_value() + a.sy.scaled_value()
        * b.ty.scaled_value() + a.ty.scaled_value() * u
}

/// Coefficient by coefficient, the two transforms are the same numbers.
pub open spec fn same_numbers(l: Transform, r: Transform) -> bool {
    &&& l.sx.scaled_value() == r.sx.scaled_value()
    &&& l.ky.scaled_value() == r.ky.scaled_value()
    &&& l.kx.scaled_value() == r.kx.scaled_value()
    &&& l.sy.scaled_value() == r.sy.scaled_value()
    &&& l.tx.scaled_value() == r.tx.scaled_value()
    &&& l.ty.scaled_value() == r.ty.scaled_value()
}

/// A row times a matrix, times a column, is the row times what the matrix
/// times the column is.
proof fn lemma_row_matrix_column(
    a1: int,
    a2: int,
    b11: int,
    b12: int,
    b21: int,
    b22: int,
    c1: int,
    c2: int,
)
    ensures
        (a1 * b11 + a2 * b21) * c1 + (a1 * b12 + a2 * b22) * c2 == a1 * (b11 * c1 + b12 * c2) + a2
            * (b21 * c1 + b22 * c2),
{
    lemma_mul_is_distributive_add_other_way(c1, a1 * b11, a2 * b21);
    lemma_mul_is_distributive_add_other_way(c2, a1 * b12, a2 * b22);
    lemma_mul_is_distributive_add(a1, b11 * c1, b12 * c2);
    lemma_mul_is_distributive_add(a2, b21 * c1, b22 * c2);
    lemma_mul_is_associative(a1, b11, c1);
    lemma_mul_is_associative(a2, b21, c1);
    lemma_mul_is_associative(a1, b12, c2);
    lemma_mul_is_associative(a2, b22, c2);
}

/// One coefficient of the linear part of a product of three transforms comes
/// out the same whichever two are multiplied first.
proof fn lemma_linear_coefficient(
    a1: int,
    a2: int,
    b11: int,
    b12: int,
    b21: int,
    b22: int,
    c1: int,
    c2: int,
    ab1: int,
    ab2: int,
    bc1: int,
    bc2: int,
    l: int,
    r: int,
    u: int,
)
    requires
        u > 0,
        ab1 * u == a1 * b11 + a2 * b21,
        ab2 * u == a1 * b12 + a2 * b22,
        bc1 * u == b11 * c1 + b12 * c2,
        bc2 * u == b21 * c1 + b22 * c2,
        l * u == ab1 * c1 + ab2 * c2,
        r * u == a1 * bc1 + a2 * bc2,
    ensures
        l == r,
{
    // l u u, worked out from the left.
    lemma_mul_is_distributive_add_other_way(u, ab1 * c1, ab2 * c2);
    lemma_mul_is_associative(ab1, c1, u);
    lemma_mul_is_commutative(c1, u);
    lemma_mul_is_associative(ab1, u, c1);
    lemma_mul_is_associative(ab2, c2, u);
    lemma_mul_is_commutative(c2, u);
    lemma_mul_is_associative(ab2, u, c2);
    assert((l * u) * u == (ab1 * u) * c1 + (ab2 * u) * c2);
    // r u u, worked out from the right.
    lemma_mul_is_distributive_add_other_way(u, a1 * bc1, a2 * bc2);
    lemma_mul_is_associative(a1, bc1, u);
    lemma_mul_is_associative(a2, bc2, u);
    assert((r * u) * u == a1 * (bc1 * u) + a2 * (bc2 * u));
    lemma_row_matrix_column(a1, a2, b11, b12, b21, b22, c1, c2);
    assert((l * u) * u == (r * u) * u);
    lemma_mul_equality_converse(u, l * u, r * u);
    lemma_mul_equality_converse(u, l, r);
}

/// One coefficient of the translation of a product of three transforms comes
/// out the same whichever two are multiplied first.
proof fn lemma_translation_coefficient(
    a1: int,
    a2: int,
    a3: int,
    b11: int,
    b12: int,
    b13: int,
    b21: int,
    b22: int,
    b23: int,
    c1: int,
    c2: int,
    ab1: int,
    ab2: int,
    ab3: int,
    bc1: int,
    bc2: int,
    l: int,
    r: int,
    u: int,
)
    requires
        u > 0,
        ab1 * u == a1 * b11 + a2 * b21,
        ab2 * u == a1 * b12 + a2 * b22,
        ab3 * u == a1 * b13 + a2 * b23 + a3 * u,
        bc1 * u == b11 * c1 + b12 * c2 + b13 * u,
        bc2 * u == b21 * c1 + b22 * c2 + b23 * u,
        l * u == ab1 * c1 + ab2 * c2 + ab3 * u,
        r * u == a1 * bc1 + a2 * bc2 + a3 * u,
    ensures
        l == r,
{
    // l u u, worked out from the left.
    lemma_mul_is_distributive_add_other_way(u, ab1 * c1 + ab2 * c2, ab3 * u);
    lemma_mul_is_distributive_add_other_way(u, ab1 * c1, ab2 * c2);
    lemma_mul_is_associative(ab1, c1, u);
    lemma_mul_is_commutative(c1, u);
    lemma_mul_is_associative(ab1, u, c1);
    lemma_mul_is_associative(ab2, c2, u);
    lemma_mul_is_commutative(c2, u);
    lemma_mul_is_associative(ab2, u, c2);
    assert((l * u) * u == (ab1 * u) * c1 + (ab2 * u) * c2 + (ab3 * u) * u);
    lemma_mul_is_distributive_add_other_way(u, a1 * b13 + a2 * b23, a3 * u);
    lemma_mul_is_distributive_add_other_way(u, a1 * b13, a2 * b23);
    lemma_mul_is_associative(a1, b13, u);
    lemma_mul_is_associative(a2, b23, u);
    assert((ab3 * u) * u == a1 * (b13 * u) + a2 * (b23 * u) + (a3 * u) * u);
    // r u u, worked out from the right.
    lemma_mul_is_distributive_add_other_way(u, a1 * bc1 + a2 * bc2, a3 * u);
    lemma_mul_is_distributive_add_other_way(u, a1 * bc1, a2 * bc2);
    lemma_mul_is_associative(a1, bc1, u);
    lemma_mul_is_associative(a2, bc2, u);
    assert((r * u) * u == a1 * (bc1 * u) + a2 * (bc2 * u) + (a3 * u) * u);
    lemma_mul_is_distributive_add(a1, b11 * c1 + b12 * c2, b13 * u);
    lemma_mul_is_distributive_add(a2, b21 * c1 + b22 * c2, b23 * u);
    lemma_row_matrix_column(a1, a2, b11, b12, b21, b22, c1, c2);
    lemma_mul_is_distributive_add(a1, b11 * c1, b12 * c2);
    lemma_mul_is_distributive_add(a2, b21 * c1, b22 * c2);
    assert((l * u) * u == (r * u) * u);
    lemma_mul_equality_converse(u, l * u, r * u);
    lemma_mul_equality_converse(u, l, r);
}

/// Composing is associative where nothing is rounded: if `ab` is the exact
/// product of `a` and `b`, `bc` that of `b` and `c`, `l` that of `ab` and `c`
/// and `r` that of `a` and `bc`, then `l` and `r` are the same numbers,
/// coefficient by coefficient, and equal transforms where they are finite.
pub proof fn lemma_exact_concat_is_associative(
    a: Transform,
    b: Transform,
    c: Transform,
    ab: Transform,
    bc: Transform,
    l: Transform,
    r: Transform,
)
    requires
        is_exact_product(a, b, ab),
        is_exact_product(b, c, bc),
        is_exact_product(ab, c, l),
        is_exact_product(a, bc, r),
    ensures
        same_numbers(l, r),
        l.finite() && r.finite() ==> l.same(r),
{
    let u = one();
    lemma_pow2_pos(149);
    lemma_linear_coefficient(
        a.sx.scaled_value(),
        a.kx.scaled_value(),
        b.sx.scaled_value(),
        b.kx.scaled_value(),
        b.ky.scaled_value(),
        b.sy.scaled_value(),
        c.sx.scaled_value(),
        c.ky.scaled_value(),
        ab.sx.scaled_value(),
        ab.kx.scaled_value(),
        bc.sx.scaled_value(),
        bc.ky.scaled_value(),
        l.sx.scaled_value(),
        r.sx.scaled_value(),
        u,
    );
    lemma_linear_coefficient(
        a.ky.scaled_value(),
        a.sy.scaled_value(),
        b.sx.scaled_value(),
        b.kx.scaled_value(),
        b.ky.scaled_value(),
        b.sy.scaled_value(),
        c.sx.scaled_value(),
        c.ky.scaled_value(),
        ab.ky.scaled_value(),
        ab.sy.scaled_value(),
        bc.sx.scaled_value(),
        bc.ky.scaled_value(),
        l.ky.scaled_value(),
        r.ky.scaled_value(),
        u,
    );
    lemma_linear_coefficient(
        a.sx.scaled_value(),
        a.kx.scaled_value(),
        b.sx.scaled_value(),
        b.kx.scaled_value(),
        b.ky.scaled_value(),
        b.sy.scaled_value(),
        c.kx.scaled_value(),
        c.sy.scaled_value(),
        ab.sx.scaled_value(),
        ab.kx.scaled_value(),
        bc.kx.scaled_value(),
        bc.sy.scaled_value(),
        l.kx.scaled_value(),
        r.kx.scaled_value(),
        u,
    );
    lemma_linear_coefficient(
        a.ky.scaled_value(),
        a.sy.scaled_value(),
        b.sx.scaled_value(),
        b.kx.scaled_value(),
        b.ky.scaled_value(),
        b.sy.scaled_value(),
        c.kx.scaled_value(),
        c.sy.scaled_value(),
        ab.ky.scaled_value(),
        ab.sy.scaled_value(),
        bc.kx.scaled_value(),
        bc.sy.scaled_value(),
        l.sy.scaled_value(),
        r.sy.scaled_value(),
        u,
    );
    lemma_translation_coefficient(
        a.sx.scaled_value(),
        a.kx.scaled_value(),
        a.tx.scaled_value(),
        b.sx.scaled_value(),
        b.kx.scaled_value(),
        b.tx.scaled_value(),
        b.ky.scaled_value(),
        b.sy.scaled_value(),
        b.ty.scaled_value(),
        c.tx.scaled_value(),
        c.ty.scaled_value(),
        ab.sx.scaled_value(),
        ab.kx.scaled_value(),
        ab.tx.scaled_value(),
        bc.tx.scaled_value(),
        bc.ty.scaled_value(),
        l.tx.scaled_value(),
        r.tx.scaled_value(),
        u,
    );
    lemma_translation_coefficient(
        a.ky.scaled_value(),
        a.sy.scaled_value(),
        a.ty.scaled_value(),
        b.sx.scaled_value(),
        b.kx.scaled_value(),
        b.tx.scaled_value(),
        b.ky.scaled_value(),
        b.sy.scaled_value(),
        b.ty.scaled_value(),
        c.tx.scaled_value(),
        c.ty.scaled_value(),
        ab.ky.scaled_value(),
        ab.sy.scaled_value(),
        ab.ty.scaled_value(),
        bc.tx.scaled_value(),
        bc.ty.scaled_value(),
        l.ty.scaled_value(),
        r.ty.scaled_value(),
        u,
    );
    if l.finite() && r.finite() {
        lemma_order_is_that_of_the_numbers(l.sx, r.sx);
        lemma_order_is_that_of_the_numbers(l.ky, r.ky);
        lemma_order_is_that_of_the_numbers(l.kx, r.kx);
        lemma_order_is_that_of_the_numbers(l.sy, r.sy);
        lemma_order_is_that_of_the_numbers(l.tx, r.tx);
        lemma_order_is_that_of_the_numbers(l.ty, r.ty);
    }
}

/// The identity stands for the numbers one and zero, whatever the signs of
/// its zeros.
proof fn lemma_numbers_of_the_identity(ts: Transform)
    requires
        ts.identical(),
    ensures
        ts.sx.scaled_value() == one(),
        ts.sy.scaled_value() == one(),
        ts.kx.scaled_value() == 0,
        ts.ky.scaled_value() == 0,
        ts.tx.scaled_value() == 0,
        ts.ty.scaled_value() == 0,
{
    lemma_numbers_of_the_constants();
    lemma_sign_of_the_number(ts.kx);
    lemma_sign_of_the_number(ts.ky);
    lemma_sign_of_the_number(ts.tx);
    lemma_sign_of_the_number(ts.ty);
}

/// Composing with the identity rounds nothing, whatever the arithmetic: the
/// result is the exact product.
pub proof fn lemma_concat_with_the_identity_is_exact<A: TransformArithmetic>(
    a: Transform,
    b: Transform,
    arith: &A,
    r: Transform,
)
    requires
        a.is_concat(b, arith, r),
        a.identical() || b.identical(),
    ensures
        is_exact_product(a, b, r),
{
    let u = one();
    if a.identical() {
        lemma_numbers_of_the_identity(a);
        assert(r == b);
        assert(u * b.sx.scaled_value() + 0 * b.ky.scaled_value() == b.sx.scaled_value() * u)
            by (nonlinear_arith);
        assert(0 * b.sx.scaled_value() + u * b.ky.scaled_value() == b.ky.scaled_value() * u)
            by (nonlinear_arith);
        assert(u * b.kx.scaled_value() + 0 * b.sy.scaled_value() == b.kx.scaled_value() * u)
            by (nonlinear_arith);
        assert(0 * b.kx.scaled_value() + u * b.sy.scaled_value() == b.sy.scaled_value() * u)
            by (nonlinear_arith);
        assert(u * b.tx.scaled_value() + 0 * b.ty.scaled_value() + 0 * u == b.tx.scaled_value() * u)
            by (nonlinear_arith);
        assert(0 * b.tx.scaled_value() + u * b.ty.scaled_value() + 0 * u == b.ty.scaled_value() * u)
            by (nonlinear_arith);
    } else {
        lemma_numbers_of_the_identity(b);
        assert(r == a);
        assert(a.sx.scaled_value() * u + a.kx.scaled_value() * 0 == a.sx.scaled_value() * u)
            by (nonlinear_arith);
        assert(a.ky.scaled_value() * u + a.sy.scaled_value() * 0 == a.ky.scaled_value() * u)
            by (nonlinear_arith);
        assert(a.sx.scaled_value() * 0 + a.kx.scaled_value() * u == a.kx.scaled_value() * u)
            by (nonlinear_arith);
        assert(a.ky.scaled_value() * 0 + a.sy.scaled_value() * u == a.sy.scaled_value() * u)
            by (nonlinear_arith);
        assert(a.sx.scaled_value() * 0 + a.kx.scaled_value() * 0 + a.tx.scaled_value() * u
            == a.tx.scaled_value() * u) by (nonlinear_arith);
        assert(a.ky.scaled_value() * 0 + a.sy.scaled_value() * 0 + a.ty.scaled_value() * u
            == a.ty.scaled_value() * u) by (nonlinear_arith);
    }
}

/// The inverse that the kernel finds without arithmetic, that of the
/// identity and of a translation, undoes the transform: the exact product of
/// the two is the identity.
pub proof fn lemma_inverse_of_a_translation_undoes_it(ts: Transform, inverse: Transform, r: Transform)
    requires
        !ts.scales(),
        !ts.skews(),
        ts.invert_path_of() == InvertPath::Done(inverse),
        is_exact_product(inverse, ts, r),
    ensures
        r.sx.scaled_value() == one(),
        r.sy.scaled_value() == one(),
        r.kx.scaled_value() == 0,
        r.ky.scaled_value() == 0,
        r.tx.scaled_value() == 0,
        r.ty.scaled_value() == 0,
{
    let u = one();
    lemma_pow2_pos(149);
    lemma_numbers_of_the_constants();
    lemma_sign_of_the_number(ts.kx);
    lemma_sign_of_the_number(ts.ky);
    lemma_sign_of_the_number(inverse.kx);
    lemma_sign_of_the_number(inverse.ky);
    lemma_number_of_negated_and_absolute(ts.tx);
    lemma_number_of_negated_and_absolute(ts.ty);
    if ts.identical() {
        lemma_numbers_of_the_identity(ts);
    }
    let tx = ts.tx.scaled_value();
    let ty = ts.ty.scaled_value();
    assert(inverse.sx.scaled_value() == u && inverse.sy.scaled_value() == u);
    assert(inverse.kx.scaled_value() == 0 && inverse.ky.scaled_value() == 0);
    assert(inverse.tx.scaled_value() == -tx && inverse.ty.scaled_value() == -ty);
    assert(ts.sx.scaled_value() == u && ts.sy.scaled_value() == u);
    assert(ts.kx.scaled_value() == 0 && ts.ky.scaled_value() == 0);
    assert(r.sx.scaled_value() * u == u * u) by (nonlinear_arith)
        requires
            r.sx.scaled_value() * u == u * u + 0 * 0,
    ;
    assert(r.sy.scaled_value() * u == u * u) by (nonlinear_arith)
        requires
            r.sy.scaled_value() * u == 0 * 0 + u * u,
    ;
    assert(r.kx.scaled_value() * u == 0 * u) by (nonlinear_arith)
        requires
            r.kx.scaled_value() * u == u * 0 + 0 * u,
    ;
    assert(r.ky.scaled_value() * u == 0 * u) by (nonlinear_arith)
        requires
            r.ky.scaled_value() * u == 0 * u + u * 0,
    ;
    assert(r.tx.scaled_value() * u == 0 * u) by (nonlinear_arith)
        requires
            r.tx.scaled_value() * u == u * tx + 0 * ty + (-tx) * u,
    ;
    assert(r.ty.scaled_value() * u == 0 * u) by (nonlinear_arith)
        requires
            r.ty.scaled_value() * u == 0 * tx + u * ty + (-ty) * u,
    ;
    lemma_mul_is_commutative(r.sx.scaled_value(), u);
    lemma_mul_is_commutative(r.sy.scaled_value(), u);
    lemma_mul_is_commutative(r.kx.scaled_value(), u);
    lemma_mul_is_commutative(r.ky.scaled_value(), u);
    lemma_mul_is_commutative(r.tx.scaled_value(), u);
    lemma_mul_is_commutative(r.ty.scaled_value(), u);
    lemma_mul_is_commutative(0, u);
    lemma_mul_equality_converse(u, r.sx.scaled_value(), u);
    lemma_mul_equality_converse(u, r.sy.scaled_value(), u);
    lemma_mul_equality_converse(u, r.kx.scaled_value(), 0);
    lemma_mul_equality_converse(u, r.ky.scaled_value(), 0);
    lemma_mul_equality_converse(u, r.tx.scaled_value(), 0);
    lemma_mul_equality_converse(u, r.ty.scaled_value(), 0);
}

/// `inverse` is the inverse of `ts` with nothing rounded, `det` being the
/// determinant of `ts` in the units of the coefficients, and not zero: each
/// coefficient of the inverse, times the determinant, is the cofactor it
/// comes from.
pub open spec fn is_exact_inverse(ts: Transform, det: int, inverse: Transform) -> bool {
    let u = one();
    &&& det != 0
    &&& det * u == ts.sx.scaled_value() * ts.sy.scaled_value() - ts.kx.scaled_value()
        * ts.ky.scaled_value()
    &&& inverse.sx.scaled_value() * det == ts.sy.scaled_value() * u
    &&& inverse.ky.scaled_value() * det == -(ts.ky.scaled_value() * u)
    &&& inverse.kx.scaled_value() * det == -(ts.kx.scaled_value() * u)
    &&& inverse.sy.scaled_value() * det == ts.sx.scaled_value() * u
    &&& inverse.tx.scaled_value() * det == ts.kx.scaled_value() * ts.ty.scaled_value()
        - ts.sy.scaled_value() * ts.tx.scaled_value()
    &&& inverse.ty.scaled_value() * det == ts.ky.scaled_value() * ts.tx.scaled_value()
        - ts.sx.scaled_value() * ts.ty.scaled_value()
}

/// A row of an inverse times a column, times the determinant, is the row of
/// cofactors times the column.
proof fn lemma_cofactor_row(
    i1: int,
    i2: int,
    m1: int,
    m2: int,
    c1: int,
    c2: int,
    det: int,
    rest: int,
    rv: int,
)
    requires
        i1 * det == c1,
        i2 * det == c2,
        rv == i1 * m1 + i2 * m2 + rest,
    ensures
        rv * det == c1 * m1 + c2 * m2 + rest * det,
{
    assert((i1 * m1) * det == c1 * m1) by (nonlinear_arith)
        requires
            i1 * det == c1,
    ;
    assert((i2 * m2) * det == c2 * m2) by (nonlinear_arith)
        requires
            i2 * det == c2,
    ;
    lemma_mul_is_distributive_add_other_way(det, i1 * m1, i2 * m2);
    lemma_mul_is_distributive_add_other_way(det, i1 * m1 + i2 * m2, rest);
}

/// A number whose product with the units and a determinant that is not zero
/// is that of `target` is `target`.
proof fn lemma_cancel_units(rv: int, target: int, u: int, det: int)
    requires
        u > 0,
        det != 0,
        (rv * u) * det == target * (det * u),
    ensures
        rv == target,
{
    let k = det * u;
    assert(k != 0) by (nonlinear_arith)
        requires
            k == det * u,
            u > 0,
            det != 0,
    ;
    assert((rv * u) * det == rv * k) by (nonlinear_arith)
        requires
            k == det * u,
    ;
    assert((rv - target) * k == 0) by (nonlinear_arith)
        requires
            rv * k == target * k,
    ;
    lemma_mul_is_commutative(rv - target, k);
    lemma_zero_product(k, rv - target);
}

/// Where nothing is rounded, an inverse undoes its transform: the product of
/// the two, the transform applied first, is the identity.
pub proof fn lemma_exact_inverse_undoes_the_transform(
    ts: Transform,
    det: int,
    inverse: Transform,
    r: Transform,
)
    requires
        is_exact_inverse(ts, det, inverse),
        is_exact_product(inverse, ts, r),
    ensures
        r.sx.scaled_value() == one(),
        r.sy.scaled_value() == one(),
        r.kx.scaled_value() == 0,
        r.ky.scaled_value() == 0,
        r.tx.scaled_value() == 0,
        r.ty.scaled_value() == 0,
{
    let u = one();
    lemma_pow2_pos(149);
    let (sx, kx, ky) = (ts.sx.scaled_value(), ts.kx.scaled_value(), ts.ky.scaled_value());
    let (sy, tx, ty) = (ts.sy.scaled_value(), ts.tx.scaled_value(), ts.ty.scaled_value());
    let (isx, ikx, iky) = (
        inverse.sx.scaled_value(),
        inverse.kx.scaled_value(),
        inverse.ky.scaled_value(),
    );
    let (isy, itx, ity) = (
        inverse.sy.scaled_value(),
        inverse.tx.scaled_value(),
        inverse.ty.scaled_value(),
    );
    let d = sx * sy - kx * ky;
    assert(u * (det * u) == u * d);

    lemma_cofactor_row(isx, ikx, sx, ky, sy * u, -(kx * u), det, 0, r.sx.scaled_value() * u);
    assert((sy * u) * sx + (-(kx * u)) * ky == u * d) by (nonlinear_arith)
        requires
            d == sx * sy - kx * ky,
    ;
    lemma_cancel_units(r.sx.scaled_value(), u, u, det);

    lemma_cofactor_row(iky, isy, sx, ky, -(ky * u), sx * u, det, 0, r.ky.scaled_value() * u);
    assert((-(ky * u)) * sx + (sx * u) * ky == 0) by (nonlinear_arith);
    lemma_cancel_units(r.ky.scaled_value(), 0, u, det);

    lemma_cofactor_row(isx, ikx, kx, sy, sy * u, -(kx * u), det, 0, r.kx.scaled_value() * u);
    assert((sy * u) * kx + (-(kx * u)) * sy == 0) by (nonlinear_arith);
    lemma_cancel_units(r.kx.scaled_value(), 0, u, det);

    lemma_cofactor_row(iky, isy, kx, sy, -(ky * u), sx * u, det, 0, r.sy.scaled_value() * u);
    assert((-(ky * u)) * kx + (sx * u) * sy == u * d) by (nonlinear_arith)
        requires
            d == sx * sy - kx * ky,
    ;
    lemma_cancel_units(r.sy.scaled_value(), u, u, det);

    let cx = kx * ty - sy * tx;
    lemma_cofactor_row(isx, ikx, tx, ty, sy * u, -(kx * u), det, itx * u, r.tx.scaled_value() * u);
    assert((itx * u) * det == cx * u) by (nonlinear_arith)
        requires
            itx * det == cx,
    ;
    assert((sy * u) * tx + (-(kx * u)) * ty + cx * u == 0) by (nonlinear_arith)
        requires
            cx == kx * ty - sy * tx,
    ;
    lemma_cancel_units(r.tx.scaled_value(), 0, u, det);

    let cy = ky * tx - sx * ty;
    lemma_cofactor_row(iky, isy, tx, ty, -(ky * u), sx * u, det, ity * u, r.ty.scaled_value() * u);
    assert((ity * u) * det == cy * u) by (nonlinear_arith)
        requires
            ity * det == cy,
    ;
    assert((-(ky * u)) * tx + (sx * u) * ty + cy * u == 0) by (nonlinear_arith)
        requires
            cy == ky * tx - sx * ty,
    ;
    lemma_cancel_units(r.ty.scaled_value(), 0, u, det);
}

/// `r` squared is the discriminant `b^2 - 4ac`, with nothing rounded.
pub open spec fn is_exact_discriminant_root(a: Scalar, b: Scalar, c: Scalar, r: Scalar) -> bool {
    r.scaled_value() * r.scaled_value() == b.scaled_value() * b.scaled_value() - 4 * (
    a.scaled_value() * c.scaled_value())
}

/// `q` is the root term of a quadratic, with nothing rounded: `-(b + r) / 2`
/// or `-(b - r) / 2`.
pub open spec fn is_exact_root_term(b: Scalar, r: Scalar, q: Scalar) -> bool {
    ||| 2 * q.scaled_value() == -(b.scaled_value() + r.scaled_value())
    ||| 2 * q.scaled_value() == -(b.scaled_value() - r.scaled_value())
}

/// `x` is `numer / denom`, with nothing rounded, and `denom` is not zero.
pub open spec fn is_exact_quotient(numer: Scalar, denom: Scalar, x: Scalar) -> bool {
    &&& denom.scaled_value() != 0
    &&& x.scaled_value() * denom.scaled_value() == numer.scaled_value() * one()
}

/// `x` solves `a x^2 + b x + c = 0`.
pub open spec fn solves_quadratic(a: Scalar, b: Scalar, c: Scalar, x: Scalar) -> bool {
    a.scaled_value() * (x.scaled_value() * x.scaled_value()) + b.scaled_value() * (x.scaled_value()
        * one()) + c.scaled_value() * (one() * one()) == 0
}

/// The root term solves `q^2 + b q + a c = 0`.
proof fn lemma_root_term_equation(a: int, b: int, c: int, r: int, q: int)
    requires
        r * r == b * b - 4 * (a * c),
        2 * q == -(b + r) || 2 * q == -(b - r),
    ensures
        q * q + b * q + a * c == 0,
{
    let s = 2 * q;
    assert(s * s == 4 * (q * q)) by (nonlinear_arith)
        requires
            s == 2 * q,
    ;
    assert(b * s == 2 * (b * q)) by (nonlinear_arith)
        requires
            s == 2 * q,
    ;
    if s == -(b + r) {
        assert(s * s == b * b + 2 * (b * r) + r * r) by (nonlinear_arith)
            requires
                s == -(b + r),
        ;
        assert(b * s == -(b * b) - b * r) by (nonlinear_arith)
            requires
                s == -(b + r),
        ;
    } else {
        assert(s * s == b * b - 2 * (b * r) + r * r) by (nonlinear_arith)
            requires
                s == -(b - r),
        ;
        assert(b * s == -(b * b) + b * r) by (nonlinear_arith)
            requires
                s == -(b - r),
        ;
    }
    assert(s * s + 2 * (b * s) + 4 * (a * c) == 0);
}

/// A number that a number other than zero takes to zero is zero.
proof fn lemma_zero_product(k: int, p: int)
    by (nonlinear_arith)
    requires
        k != 0,
        k * p == 0,
    ensures
        p == 0,
{
}

/// Where nothing is rounded, each root that the quadratic formula gives
/// solves the equation: `q / a` and `c / q`, `q` being the root term and
/// `r`, which it is made of, the root of the discriminant.
pub proof fn lemma_exact_quad_roots_solve_the_equation(
    a: Scalar,
    b: Scalar,
    c: Scalar,
    r: Scalar,
    q: Scalar,
    x: Scalar,
)
    requires
        is_exact_discriminant_root(a, b, c, r),
        is_exact_root_term(b, r, q),
        is_exact_quotient(q, a, x) || is_exact_quotient(c, q, x),
    ensures
        solves_quadratic(a, b, c, x),
{
    let u = one();
    let (av, bv, cv) = (a.scaled_value(), b.scaled_value(), c.scaled_value());
    let (qv, xv) = (q.scaled_value(), x.scaled_value());
    lemma_root_term_equation(av, bv, cv, r.scaled_value(), qv);
    let p = av * (xv * xv) + bv * (xv * u) + cv * (u * u);
    let e = qv * qv + bv * qv + av * cv;
    if is_exact_quotient(q, a, x) {
        let y = xv * av;
        let uu = u * u;
        let (p1, p2, p3) = (av * (xv * xv), bv * (xv * u), cv * uu);
        assert(av * p == av * p1 + av * p2 + av * p3) by (nonlinear_arith)
            requires
                p == p1 + p2 + p3,
        ;
        let xx = xv * xv;
        assert(av * xx == y * xv) by (nonlinear_arith)
            requires
                xx == xv * xv,
                y == xv * av,
        ;
        assert(av * p1 == y * y) by (nonlinear_arith)
            requires
                p1 == y * xv,
                y == xv * av,
        ;
        let xu = xv * u;
        assert(av * xu == y * u) by (nonlinear_arith)
            requires
                xu == xv * u,
                y == xv * av,
        ;
        assert(av * p2 == bv * (y * u)) by (nonlinear_arith)
            requires
                p2 == bv * xu,
                av * xu == y * u,
        ;
        assert(av * p3 == (av * cv) * uu) by (nonlinear_arith)
            requires
                p3 == cv * uu,
        ;
        assert(y * y == (qv * qv) * uu) by (nonlinear_arith)
            requires
                y == qv * u,
                uu == u * u,
        ;
        assert(y * u == qv * uu) by (nonlinear_arith)
            requires
                y == qv * u,
                uu == u * u,
        ;
        assert(bv * (qv * uu) == (bv * qv) * uu) by (nonlinear_arith);
        assert((qv * qv) * uu + (bv * qv) * uu + (av * cv) * uu == e * uu) by (nonlinear_arith)
            requires
                e == qv * qv + bv * qv + av * cv,
        ;
        assert(e * uu == 0) by (nonlinear_arith)
            requires
                e == 0,
        ;
        assert(av * p == 0);
        lemma_zero_product(av, p);
    } else {
        let y = xv * qv;
        let k = qv * qv;
        let w = cv * (u * u);
        let (p1, p2, p3) = (av * (xv * xv), bv * (xv * u), w);
        assert(k * p == k * p1 + k * p2 + k * p3) by (nonlinear_arith)
            requires
                p == p1 + p2 + p3,
        ;
        let xx = xv * xv;
        assert(k * xx == y * y) by (nonlinear_arith)
            requires
                k == qv * qv,
                xx == xv * xv,
                y == xv * qv,
        ;
        assert(k * p1 == av * (y * y)) by (nonlinear_arith)
            requires
                p1 == av * xx,
                k * xx == y * y,
        ;
        let xu = xv * u;
        assert(k * xu == y * (qv * u)) by (nonlinear_arith)
            requires
                k == qv * qv,
                xu == xv * u,
                y == xv * qv,
        ;
        assert(k * p2 == bv * (y * (qv * u))) by (nonlinear_arith)
            requires
                p2 == bv * xu,
                k * xu == y * (qv * u),
        ;
        let yy = y * y;
        assert(yy == cv * w) by (nonlinear_arith)
            requires
                yy == y * y,
                y == cv * u,
                w == cv * (u * u),
        ;
        assert(av * yy == w * (av * cv)) by (nonlinear_arith)
            requires
                yy == cv * w,
        ;
        let yqu = y * (qv * u);
        assert(yqu == w * qv) by (nonlinear_arith)
            requires
                yqu == y * (qv * u),
                y == cv * u,
                w == cv * (u * u),
        ;
        assert(bv * yqu == w * (bv * qv)) by (nonlinear_arith)
            requires
                yqu == w * qv,
        ;
        assert(k * p3 == w * k) by (nonlinear_arith)
            requires
                p3 == w,
        ;
        assert(w * (av * cv) + w * (bv * qv) + w * k == w * e) by (nonlinear_arith)
            requires
                e == k + bv * qv + av * cv,
        ;
        assert(w * e == 0) by (nonlinear_arith)
            requires
                e == 0,
        ;
        assert(k * p == 0);
        assert(k != 0) by (nonlinear_arith)
            requires
                k == qv * qv,
                qv != 0,
        ;
        lemma_zero_product(k, p);
    }
}

/// Where nothing is rounded, the root `-c / b` that is looked for where the
/// leading coefficient is zero solves the linear equation that is left.
pub proof fn lemma_exact_linear_root_solves_the_equation(b: Scalar, c: Scalar, x: Scalar)
    requires
        is_exact_quotient(c.negated(), b, x),
        !c.nan(),
    ensures
        b.scaled_value() * x.scaled_value() + c.scaled_value() * one() == 0,
{
    lemma_number_of_negated_and_absolute(c);
    let u = one();
    let (bv, cv, xv) = (b.scaled_value(), c.scaled_value(), x.scaled_value());
    assert(bv * xv == (-cv) * u) by (nonlinear_arith)
        requires
            xv * bv == (-cv) * u,
    ;
    assert((-cv) * u + cv * u == 0) by (nonlinear_arith);
}

} // verus!

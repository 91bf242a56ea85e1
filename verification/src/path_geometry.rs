//! Bezier curves: chopping them, finding the roots of their derivatives, and
//! finding where they bend most, turn, or come to a point.

use vstd::prelude::*;
use crate::arithmetic::CubicTerms;
use crate::arithmetic::CurveArithmetic;
use crate::arithmetic::RootArithmetic;
use crate::f32x2_t::f32x2;
use crate::f32x2_t::is_times_plus;
use crate::normalized::bounded_to_unit;
use crate::normalized::clamped_to_unit;
use crate::normalized::in_unit_closed;
use crate::normalized::in_unit_open;
use crate::normalized::lemma_bounded_to_unit;
use crate::normalized::lemma_clamped_to_unit;
use crate::normalized::NormalizedF32;
use crate::normalized::NormalizedF32Exclusive;
use crate::point::Point;
use crate::scalar::Scalar;
use crate::scalar::EPSILON_BITS;
use crate::scalar::HALF_BITS;
use crate::scalar::MINUS_ONE_BITS;
use crate::scalar::NEARLY_ZERO_BITS;
use crate::scalar::ONE_BITS;
use crate::scalar::ONE_MINUS_EPSILON_BITS;

verus! {

/// The values of `s`, in order, are not decreasing.
pub open spec fn ascending(s: Seq<Scalar>) -> bool {
    forall|i: int, j: int| 0 <= i <= j < s.len() ==> s[i].at_most(s[j])
}

/// The values of `s`, in order, are increasing: no two are equal.
pub open spec fn strictly_ascending(s: Seq<Scalar>) -> bool {
    forall|i: int, j: int| 0 <= i < j < s.len() ==> s[i].less(s[j])
}

/// The values that three parameters hold.
pub open spec fn values3(a: [NormalizedF32; 3]) -> Seq<Scalar> {
    seq![a[0]@, a[1]@, a[2]@]
}

/// The values that three parameters of the open interval hold.
pub open spec fn open_values3(a: [NormalizedF32Exclusive; 3]) -> Seq<Scalar> {
    seq![a[0]@, a[1]@, a[2]@]
}

/// The coefficients of a quadratic in one parameter, for both coordinates of
/// a curve at once: its value at `t` is `a t^2 + b t + c`.
#[derive(Clone, Copy, Debug)]
pub struct QuadCoeff {
    pub a: f32x2,
    pub b: f32x2,
    pub c: f32x2,
}

/// `r` is the value at `t` of the quadratic with the coefficients `coeff`,
/// by Horner's scheme: `(a t + b) t + c`.
pub open spec fn is_quad_value<A: CurveArithmetic>(
    arith: &A,
    coeff: QuadCoeff,
    t: f32x2,
    r: f32x2,
) -> bool {
    exists|inner: f32x2|
        {
            &&& #[trigger] is_times_plus(arith, coeff.a, t, coeff.b, inner)
            &&& is_times_plus(arith, inner, t, coeff.c, r)
        }
}

/// `coeff` holds the coefficients of the quadratic through `points`: the
/// two higher ones as the arithmetic computes them, and the constant one,
/// which is the first point itself.
pub open spec fn is_quad_coeff<A: CurveArithmetic>(
    arith: &A,
    points: &[Point; 3],
    coeff: QuadCoeff,
) -> bool {
    &&& call_ensures(A::quad_coefficients, (arith, points), (coeff.a, coeff.b))
    &&& coeff.c.first() == points[0].x
    &&& coeff.c.second() == points[0].y
}

impl QuadCoeff {
    /// The coefficients of the quadratic curve through `points`. The
    /// constant one is the first point, bit for bit.
    pub fn from_points<A: CurveArithmetic>(points: &[Point; 3], arith: &A) -> (r: QuadCoeff)
        ensures
            is_quad_coeff(arith, points, r),
    {
        let (a, b) = arith.quad_coefficients(points);
        QuadCoeff { a, b, c: points[0].to_f32x2() }
    }

    /// The value of the quadratic at `t`, by Horner's scheme.
    pub fn eval<A: CurveArithmetic>(&self, t: f32x2, arith: &A) -> (r: f32x2)
        ensures
            is_quad_value(arith, *self, t, r),
    {
        let inner = self.a.times_plus(t, self.b, arith);
        inner.times_plus(t, self.c, arith)
    }
}

/// A pair holds two zeros.
pub open spec fn is_zero_pair(pair: f32x2) -> bool {
    pair.first().bits == 0 && pair.second().bits == 0
}

impl Default for QuadCoeff {
    /// The quadratic that is zero everywhere.
    fn default() -> (r: QuadCoeff)
        ensures
            is_zero_pair(r.a),
            is_zero_pair(r.b),
            is_zero_pair(r.c),
    {
        let zero = f32x2::splat(Scalar::zero());
        QuadCoeff { a: zero, b: zero, c: zero }
    }
}

/// The coefficients of a cubic in one parameter, for both coordinates of a
/// curve at once: its value at `t` is `a t^3 + b t^2 + c t + d`.
#[derive(Clone, Copy, Debug)]
pub struct CubicCoeff {
    pub a: f32x2,
    pub b: f32x2,
    pub c: f32x2,
    pub d: f32x2,
}

/// `r` is the value at `t` of the cubic with the coefficients `coeff`, by
/// Horner's scheme: `((a t + b) t + c) t + d`.
pub open spec fn is_cubic_value<A: CurveArithmetic>(
    arith: &A,
    coeff: CubicCoeff,
    t: f32x2,
    r: f32x2,
) -> bool {
    exists|innermost: f32x2, inner: f32x2|
        {
            &&& #[trigger] is_times_plus(arith, coeff.a, t, coeff.b, innermost)
            &&& #[trigger] is_times_plus(arith, innermost, t, coeff.c, inner)
            &&& is_times_plus(arith, inner, t, coeff.d, r)
        }
}

impl Default for CubicCoeff {
    /// The cubic that is zero everywhere.
    fn default() -> (r: CubicCoeff)
        ensures
            is_zero_pair(r.a),
            is_zero_pair(r.b),
            is_zero_pair(r.c),
            is_zero_pair(r.d),
    {
        let zero = f32x2::splat(Scalar::zero());
        CubicCoeff { a: zero, b: zero, c: zero, d: zero }
    }
}

/// `coeff` holds the coefficients of the cubic through `points`: the three
/// higher ones as the arithmetic computes them, and the constant one, which
/// is the first point itself.
pub open spec fn is_cubic_coeff<A: CurveArithmetic>(
    arith: &A,
    points: &[Point; 4],
    coeff: CubicCoeff,
) -> bool {
    &&& call_ensures(A::cubic_coefficients, (arith, points), (coeff.a, coeff.b, coeff.c))
    &&& coeff.d.first() == points[0].x
    &&& coeff.d.second() == points[0].y
}

impl CubicCoeff {
    /// The coefficients of the cubic curve through `points`. The constant
    /// one is the first point, bit for bit.
    pub fn from_points<A: CurveArithmetic>(points: &[Point; 4], arith: &A) -> (r: CubicCoeff)
        ensures
            is_cubic_coeff(arith, points, r),
    {
        let (a, b, c) = arith.cubic_coefficients(points);
        CubicCoeff { a, b, c, d: points[0].to_f32x2() }
    }

    /// The value of the cubic at `t`, by Horner's scheme.
    pub fn eval<A: CurveArithmetic>(&self, t: f32x2, arith: &A) -> (r: f32x2)
        ensures
            is_cubic_value(arith, *self, t, r),
    {
        let innermost = self.a.times_plus(t, self.b, arith);
        let inner = innermost.times_plus(t, self.c, arith);
        inner.times_plus(t, self.d, arith)
    }
}

/// The pair with both values `t`.
pub open spec fn both(t: Scalar) -> f32x2 {
    f32x2([t, t])
}

/// The coordinates of a point, as a pair.
pub open spec fn pair_of(p: Point) -> f32x2 {
    f32x2([p.x, p.y])
}

/// The point at `t` on the quadratic through `src`: the value at `t` of the
/// quadratic with the coefficients of the curve.
pub fn eval_quad_at<A: CurveArithmetic>(src: &[Point; 3], t: NormalizedF32, arith: &A) -> (r: Point)
    ensures
        exists|coeff: QuadCoeff|
            {
                &&& #[trigger] is_quad_coeff(arith, src, coeff)
                &&& is_quad_value(arith, coeff, both(t@), pair_of(r))
            },
{
    let coeff = QuadCoeff::from_points(src, arith);
    let tt = f32x2::splat(t.get());
    let value = coeff.eval(tt, arith);
    let r = Point::from_f32x2(value);
    proof {
        assert(tt.0 =~= both(t@).0);
        assert(value.0 =~= pair_of(r).0);
    }
    r
}

/// The point at `t` on the cubic through `src`: the value at `t` of the
/// cubic with the coefficients of the curve.
pub fn eval_cubic_pos_at<A: CurveArithmetic>(src: &[Point; 4], t: NormalizedF32, arith: &A) -> (r:
    Point)
    ensures
        exists|coeff: CubicCoeff|
            {
                &&& #[trigger] is_cubic_coeff(arith, src, coeff)
                &&& is_cubic_value(arith, coeff, both(t@), pair_of(r))
            },
{
    let coeff = CubicCoeff::from_points(src, arith);
    let tt = f32x2::splat(t.get());
    let value = coeff.eval(tt, arith);
    let r = Point::from_f32x2(value);
    proof {
        assert(tt.0 =~= both(t@).0);
        assert(value.0 =~= pair_of(r).0);
    }
    r
}

/// `r` is a third of the derivative at `t` of the cubic through `src`: the
/// value at `t` of the quadratic with the coefficients of the derivative.
pub open spec fn is_cubic_derivative<A: CurveArithmetic>(
    arith: &A,
    src: &[Point; 4],
    t: NormalizedF32,
    r: Point,
) -> bool {
    exists|coeff: QuadCoeff|
        {
            &&& #[trigger] call_ensures(A::cubic_derivative_coefficients, (arith, src), coeff)
            &&& is_quad_value(arith, coeff, both(t@), pair_of(r))
        }
}

/// A third of the derivative at `t` of the cubic through `src`.
pub fn eval_cubic_derivative<A: CurveArithmetic>(src: &[Point; 4], t: NormalizedF32, arith: &A) -> (r:
    Point)
    ensures
        is_cubic_derivative(arith, src, t, r),
{
    let coeff = arith.cubic_derivative_coefficients(src);
    let tt = f32x2::splat(t.get());
    let value = coeff.eval(tt, arith);
    let r = Point::from_f32x2(value);
    proof {
        assert(tt.0 =~= both(t@).0);
        assert(value.0 =~= pair_of(r).0);
    }
    r
}

/// A buffer for up to three roots, each slot holding one half until a root is
/// written to it.
pub fn new_t_values() -> (r: [NormalizedF32Exclusive; 3])
    ensures
        forall|i: int| 0 <= i < 3 ==> (#[trigger] r[i])@.bits == HALF_BITS,
{
    let any = NormalizedF32Exclusive::any();
    [any, any, any]
}

/// The values of `s` with those at `i` and `j` exchanged where the later one
/// is the smaller.
pub open spec fn exchanged(s: Seq<Scalar>, i: int, j: int) -> Seq<Scalar> {
    if s[j].less(s[i]) {
        s.update(i, s[j]).update(j, s[i])
    } else {
        s
    }
}

/// Three values in order, smallest first. Values that are equal keep the
/// order they came in.
pub open spec fn sorted3(s: Seq<Scalar>) -> Seq<Scalar> {
    exchanged(exchanged(exchanged(s, 0, 1), 1, 2), 0, 1)
}

/// Sorts three parameters, smallest first. Parameters that are equal keep
/// the order they came in.
pub fn sort_array3(array: &mut [NormalizedF32; 3])
    ensures
        values3(*final(array)) == sorted3(values3(*old(array))),
        ascending(values3(*final(array))),
        values3(*final(array)).to_multiset() == values3(*old(array)).to_multiset(),
{
    let ghost a = array[0]@;
    let ghost b = array[1]@;
    let ghost c = array[2]@;
    if array[0].get().gt(&array[1].get()) {
        let t = array[0];
        array[0] = array[1];
        array[1] = t;
    }
    assert(values3(*array) =~= exchanged(seq![a, b, c], 0, 1));
    let ghost once = values3(*array);
    if array[1].get().gt(&array[2].get()) {
        let t = array[1];
        array[1] = array[2];
        array[2] = t;
    }
    assert(values3(*array) =~= exchanged(once, 1, 2));
    let ghost twice = values3(*array);
    if array[0].get().gt(&array[1].get()) {
        let t = array[0];
        array[0] = array[1];
        array[1] = t;
    }
    assert(values3(*array) =~= exchanged(twice, 0, 1));
    proof {
        assert(values3(*old(array)) =~= seq![a, b, c]);
        lemma_permutation3(seq![a, b, c], values3(*array));
    }
}

/// Two sequences of three values with the same entries in some order hold
/// the same values as often.
proof fn lemma_permutation3(s: Seq<Scalar>, t: Seq<Scalar>)
    requires
        s.len() == 3,
        t.len() == 3,
        t == seq![s[0], s[1], s[2]] || t == seq![s[0], s[2], s[1]] || t == seq![s[1], s[0], s[2]]
            || t == seq![s[1], s[2], s[0]] || t == seq![s[2], s[0], s[1]] || t == seq![
            s[2],
            s[1],
            s[0],
        ],
    ensures
        s.to_multiset() == t.to_multiset(),
{
    broadcast use vstd::seq_lib::to_multiset_build;

    let e = Seq::<Scalar>::empty();
    assert(s =~= e.push(s[0]).push(s[1]).push(s[2]));
    assert(t =~= e.push(t[0]).push(t[1]).push(t[2]));
    assert(s.to_multiset() =~= t.to_multiset());
}

/// How many distinct values a sorted triple holds: one where all three are
/// equal, two where the first two or the last two are, else three.
pub open spec fn distinct_prefix3(s: Seq<Scalar>) -> nat {
    if s[0].same(s[1]) {
        if s[1].same(s[2]) {
            1
        } else {
            2
        }
    } else if s[1].same(s[2]) {
        2
    } else {
        3
    }
}

/// A sorted triple with its distinct values at the front: where the first
/// two are equal and the last is not, the last takes the second place.
pub open spec fn collapsed3(s: Seq<Scalar>) -> Seq<Scalar> {
    if s[0].same(s[1]) && !s[1].same(s[2]) {
        s.update(1, s[2])
    } else {
        s
    }
}

/// `value` equals one of the first `len` values of `kept`.
pub open spec fn is_kept(kept: Seq<Scalar>, len: int, value: Scalar) -> bool {
    exists|j: int| 0 <= j < len && value.same(#[trigger] kept[j])
}

/// Every one of the three values of `s` equals one of the first `len`
/// values of `kept`: none is lost.
pub open spec fn keeps_all3(kept: Seq<Scalar>, len: int, s: Seq<Scalar>) -> bool {
    &&& is_kept(kept, len, s[0])
    &&& is_kept(kept, len, s[1])
    &&& is_kept(kept, len, s[2])
}

/// Collapsing loses no value: every value of a triple of numbers equals one
/// of those kept. On a sorted triple the kept values increase, so they are
/// the distinct values of the triple, each once.
pub proof fn lemma_collapsing_loses_no_value(s: Seq<Scalar>)
    requires
        s.len() == 3,
        !s[0].nan(),
        !s[1].nan(),
        !s[2].nan(),
    ensures
        keeps_all3(collapsed3(s), distinct_prefix3(s) as int, s),
        ascending(s) ==> strictly_ascending(collapsed3(s).take(distinct_prefix3(s) as int)),
        ascending(s) ==> ascending(collapsed3(s)),
{
    let kept = collapsed3(s);
    let len = distinct_prefix3(s) as int;
    assert(s[0].same(kept[0]));
    if s[0].same(s[1]) {
        assert(s[1].same(kept[0]));
        if s[1].same(s[2]) {
            assert(s[2].same(kept[0]));
        } else {
            assert(s[2].same(kept[1]));
        }
    } else {
        assert(s[1].same(kept[1]));
        if s[1].same(s[2]) {
            assert(s[2].same(kept[1]));
        } else {
            assert(s[2].same(kept[2]));
        }
    }
    if ascending(s) {
        assert(s[0].at_most(s[1]));
        assert(s[1].at_most(s[2]));
        assert(s[0].at_most(s[2]));
        let p = kept.take(len);
        assert forall|i: int, j: int| 0 <= i < j < p.len() implies p[i].less(p[j]) by {}
        assert forall|i: int, j: int| 0 <= i <= j < kept.len() implies kept[i].at_most(
            kept[j],
        ) by {}
    }
}

/// Brings the distinct values of a sorted triple to its front, and returns
/// how many there are: where the first two parameters are equal and the last
/// is not, the last is written to the second place too. Every value of the
/// triple equals one that is kept, and the kept ones increase.
pub fn collapse_duplicates3(array: &mut [NormalizedF32; 3]) -> (len: usize)
    ensures
        values3(*final(array)) == collapsed3(values3(*old(array))),
        len == distinct_prefix3(values3(*old(array))),
        1 <= len <= 3,
        keeps_all3(values3(*final(array)), len as int, values3(*old(array))),
        ascending(values3(*old(array))) ==> strictly_ascending(
            values3(*final(array)).take(len as int),
        ),
        ascending(values3(*old(array))) ==> ascending(values3(*final(array))),
{
    let first = array[0].get();
    let second = array[1].get();
    let third = array[2].get();
    proof {
        lemma_collapsing_loses_no_value(values3(*array));
    }
    let len: usize = if first == second {
        if second == third {
            1
        } else {
            array[1] = array[2];
            2
        }
    } else if second == third {
        2
    } else {
        3
    };
    assert(values3(*array) =~= collapsed3(values3(*old(array))));
    len
}

/// The operands of a division whose quotient can lie strictly between zero
/// and one: the numerator made positive, the denominator's sign turned with
/// it, and the pair refused where the denominator or the numerator is zero or
/// the numerator is not below the denominator.
pub open spec fn unit_operands(numer: Scalar, denom: Scalar) -> Option<(Scalar, Scalar)> {
    let zero = Scalar { bits: 0 };
    let n = if numer.less(zero) {
        numer.negated()
    } else {
        numer
    };
    let d = if numer.less(zero) {
        denom.negated()
    } else {
        denom
    };
    if d.same(zero) || n.same(zero) || d.at_most(n) {
        None
    } else {
        Some((n, d))
    }
}

/// Prepares `numer / denom` for a root in `(0, 1)`.
///
/// Returns the operands to divide, or `None` where the quotient cannot lie
/// strictly between zero and one. The quotient of the operands returned is
/// that of the arguments; where no operand is a NaN, the numerator returned
/// is positive and below the denominator.
pub fn unit_divide_operands(numer: Scalar, denom: Scalar) -> (r: Option<(Scalar, Scalar)>)
    ensures
        r == unit_operands(numer, denom),
        r matches Some((n, d)) ==> (n == numer && d == denom) || (n == numer.negated() && d
            == denom.negated()),
        r matches Some((n, d)) ==> !n.nan() && !d.nan() ==> 0 < n.key() < d.key(),
        !numer.nan() && !denom.nan() ==> (r is Some <==> (0 < numer.key() < denom.key() || denom.key()
            < numer.key() < 0)),
{
    let zero = Scalar::zero();
    let mut n = numer;
    let mut d = denom;
    if n.lt(&zero) {
        n = n.neg();
        d = d.neg();
    }
    if d == zero || n == zero || n.ge(&d) {
        return None;
    }
    Some((n, d))
}

/// What [`collect_unit_roots`] leaves in the buffer `before` and returns,
/// given the two candidates.
pub open spec fn collected_roots(
    first: Option<Scalar>,
    second: Option<Scalar>,
    before: Seq<Scalar>,
) -> (Seq<Scalar>, nat) {
    match (first, second) {
        (None, None) => (before, 0),
        (Some(a), None) => (before.update(0, a), 1),
        (None, Some(b)) => (before.update(0, b), 1),
        (Some(a), Some(b)) => if b.less(a) {
            (before.update(0, b).update(1, a), 2)
        } else if a.same(b) {
            (before.update(0, a).update(1, b), 1)
        } else {
            (before.update(0, a).update(1, b), 2)
        },
    }
}

/// Writes the roots found to the front of `roots`, smaller first, and returns
/// how many there are. Two equal roots count once.
pub fn collect_unit_roots(
    first: Option<NormalizedF32Exclusive>,
    second: Option<NormalizedF32Exclusive>,
    roots: &mut [NormalizedF32Exclusive; 3],
) -> (count: usize)
    ensures
        (open_values3(*final(roots)), count as nat) == collected_roots(
            option_value(first),
            option_value(second),
            open_values3(*old(roots)),
        ),
        count <= 2,
        count == 0 <==> first is None && second is None,
        strictly_ascending(open_values3(*final(roots)).take(count as int)),
        forall|i: int|
            0 <= i < count ==> in_unit_open(#[trigger] open_values3(*final(roots))[i]),
{
    let mut roots_offset: usize = 0;
    if let Some(r) = first {
        proof {
            use_type_invariant(&r);
        }
        roots[roots_offset] = r;
        roots_offset += 1;
    }
    if let Some(r) = second {
        proof {
            use_type_invariant(&r);
        }
        roots[roots_offset] = r;
        roots_offset += 1;
    }
    if roots_offset == 2 {
        if roots[0].get().gt(&roots[1].get()) {
            let t = roots[0];
            roots[0] = roots[1];
            roots[1] = t;
        } else if roots[0] == roots[1] {
            roots_offset -= 1;
        }
    }
    proof {
        let now = open_values3(*roots);
        let want = collected_roots(
            option_value(first),
            option_value(second),
            open_values3(*old(roots)),
        );
        assert(now =~= want.0);
    }
    roots_offset
}

/// The value of a root that may be missing.
pub open spec fn option_value(o: Option<NormalizedF32Exclusive>) -> Option<Scalar> {
    match o {
        Some(r) => Some(r@),
        None => None,
    }
}

/// Copies the first `count` roots of the open interval into a buffer of the
/// closed one.
pub fn widen_roots(
    roots: &[NormalizedF32Exclusive; 3],
    count: usize,
    t_values: &mut [NormalizedF32; 3],
)
    requires
        count <= 3,
    ensures
        forall|i: int| 0 <= i < count ==> (#[trigger] final(t_values)[i])@ == roots[i]@,
        forall|i: int| count <= i < 3 ==> (#[trigger] final(t_values)[i]) == old(t_values)[i],
{
    let mut i: usize = 0;
    while i < count
        invariant
            i <= count <= 3,
            forall|k: int| 0 <= k < i ==> (#[trigger] t_values[k])@ == roots[k]@,
            forall|k: int| i <= k < 3 ==> (#[trigger] t_values[k]) == old(t_values)[k],
        decreases count - i,
    {
        t_values[i] = roots[i].to_normalized();
        i += 1;
    }
}

/// A parameter of the closed unit interval, given as one of its ends or as a
/// division still to be made.
#[derive(Clone, Copy, Debug)]
pub enum UnitRatio {
    /// The parameter is zero.
    Zero,
    /// The parameter is one.
    One,
    /// The parameter is the first value divided by the second.
    Quotient(Scalar, Scalar),
}

/// The parameter that `numer / denom` stands for once it is held to `[0, 1]`:
/// the denominator is made positive, the numerator's sign turned with it; a
/// numerator at or below zero gives zero, one at or above the denominator
/// gives one, a zero denominator among them.
pub open spec fn clamped_ratio(numer: Scalar, denom: Scalar) -> UnitRatio {
    let zero = Scalar { bits: 0 };
    let n = if denom.less(zero) {
        numer.negated()
    } else {
        numer
    };
    let d = if denom.less(zero) {
        denom.negated()
    } else {
        denom
    };
    if n.at_most(zero) {
        UnitRatio::Zero
    } else if d.at_most(n) {
        UnitRatio::One
    } else {
        UnitRatio::Quotient(n, d)
    }
}

/// Holds the parameter `numer / denom` of a point of greatest curvature to
/// `[0, 1]` without dividing where an end is the answer.
///
/// Where a division is left and no operand is a NaN, its numerator is
/// positive and below its denominator.
pub fn clamped_divide_operands(numer: Scalar, denom: Scalar) -> (r: UnitRatio)
    ensures
        r == clamped_ratio(numer, denom),
        r matches UnitRatio::Quotient(n, d) ==> !n.nan() && !d.nan() ==> 0 < n.key() < d.key(),
        !numer.nan() && !denom.nan() ==> (r matches UnitRatio::Quotient(n, d) <==> (0 < numer.key()
            < denom.key() || denom.key() < numer.key() < 0)),
{
    let zero = Scalar::zero();
    let mut n = numer;
    let mut d = denom;
    if d.lt(&zero) {
        n = n.neg();
        d = d.neg();
    }
    if n.le(&zero) {
        return UnitRatio::Zero;
    }
    if n.ge(&d) {
        return UnitRatio::One;
    }
    UnitRatio::Quotient(n, d)
}

/// The derivative of the quadratic vanishes at the end that `t` names: the
/// control point lies on that end.
pub open spec fn quad_tangent_degenerate(src: [Point; 3], t: Scalar) -> bool {
    (t.same(Scalar { bits: 0 }) && src[0].same(src[1])) || (t.same(Scalar { bits: ONE_BITS })
        && src[1].same(src[2]))
}

/// Whether the tangent of a quadratic at `t` has to be taken from the chord
/// between its ends, the derivative being zero there.
pub fn quad_tangent_is_chord(src: &[Point; 3], t: NormalizedF32) -> (r: bool)
    ensures
        r == quad_tangent_degenerate(*src, t@),
{
    (t == NormalizedF32::zero() && src[0] == src[1]) || (t == NormalizedF32::one() && src[1]
        == src[2])
}

/// The control points between which the tangent of a cubic at `t` is taken
/// where the derivative vanishes: at zero with the first two points
/// together, from the first to the third; at one with the last two together,
/// from the second to the last. `None` where the derivative serves.
pub open spec fn cubic_chord(src: [Point; 4], t: Scalar) -> Option<(usize, usize)> {
    let at_zero = t.same(Scalar { bits: 0 });
    let at_one = t.same(Scalar { bits: ONE_BITS });
    if (at_zero && src[0].same(src[1])) || (at_one && src[2].same(src[3])) {
        if at_zero {
            Some((0usize, 2usize))
        } else {
            Some((1usize, 3usize))
        }
    } else {
        None
    }
}

/// Chooses where the tangent of a cubic at `t` comes from: `None` for the
/// derivative, else the indices of the two control points whose difference is
/// the tangent. Where that difference is zero, the chord from the first point
/// to the last takes its place.
pub fn cubic_tangent_chord(src: &[Point; 4], t: NormalizedF32) -> (r: Option<(usize, usize)>)
    ensures
        r == cubic_chord(*src, t@),
        r matches Some((from, to)) ==> from < to < 4,
{
    let at_zero = t == NormalizedF32::zero();
    let at_one = t == NormalizedF32::one();
    if (at_zero && src[0] == src[1]) || (at_one && src[2] == src[3]) {
        if at_zero {
            Some((0, 2))
        } else {
            Some((1, 3))
        }
    } else {
        None
    }
}

/// Whether a cubic can have a cusp as far as its ends tell: neither end
/// tangent is degenerate, that is, neither end has its control point on it.
pub fn cusp_ends_allow(src: &[Point; 4]) -> (r: bool)
    ensures
        r == (!src[0].same(src[1]) && !src[2].same(src[3])),
{
    !(src[0] == src[1]) && !(src[2] == src[3])
}

/// The candidate at index `k` is a cusp: it lies strictly inside the curve
/// and the squared length of the derivative there is below `precision`.
pub open spec fn is_cusp_at(
    t_values: [NormalizedF32; 3],
    magnitudes: [Scalar; 3],
    precision: Scalar,
    k: int,
) -> bool {
    in_unit_open(t_values[k]@) && magnitudes[k].less(precision)
}

/// The cusp among the first `count` candidates: the first that is one, held
/// to `[epsilon, 1 - epsilon]`.
pub open spec fn cusp_among(
    t_values: [NormalizedF32; 3],
    magnitudes: [Scalar; 3],
    count: int,
    precision: Scalar,
) -> Option<Scalar> {
    if count > 0 && is_cusp_at(t_values, magnitudes, precision, 0) {
        Some(bounded_to_unit(t_values[0]@))
    } else if count > 1 && is_cusp_at(t_values, magnitudes, precision, 1) {
        Some(bounded_to_unit(t_values[1]@))
    } else if count > 2 && is_cusp_at(t_values, magnitudes, precision, 2) {
        Some(bounded_to_unit(t_values[2]@))
    } else {
        None
    }
}

/// Picks the cusp among the points of greatest curvature.
///
/// `magnitudes[k]` is the squared length of the derivative at `t_values[k]`
/// and `precision` the bound under which it counts as zero. The first of the
/// first `count` candidates that lies strictly inside the curve and whose
/// derivative is that short is returned, held to `[epsilon, 1 - epsilon]`;
/// `None` if there is none.
pub fn first_cusp(
    t_values: &[NormalizedF32; 3],
    magnitudes: &[Scalar; 3],
    count: usize,
    precision: Scalar,
) -> (r: Option<NormalizedF32Exclusive>)
    requires
        count <= 3,
    ensures
        option_value(r) == cusp_among(*t_values, *magnitudes, count as int, precision),
{
    let zero = Scalar::zero();
    let one = Scalar::one();
    let mut i: usize = 0;
    while i < count
        invariant
            i <= count <= 3,
            zero.bits == 0,
            one.bits == ONE_BITS,
            forall|k: int| 0 <= k < i ==> !is_cusp_at(*t_values, *magnitudes, precision, k),
        decreases count - i,
    {
        let t: Scalar = t_values[i].get();
        if !(zero.ge(&t) || t.ge(&one)) && magnitudes[i].lt(&precision) {
            assert(is_cusp_at(*t_values, *magnitudes, precision, i as int));
            return Some(NormalizedF32Exclusive::new_bounded(t));
        }
        i += 1;
    }
    None
}

/// `r` is the point between `v0` and `v1` at `t`: `v0 + (v1 - v0) * t`, the
/// vector from `v0` to `v1` scaled by `t` and added to `v0`.
pub open spec fn is_interp<A: CurveArithmetic>(
    arith: &A,
    v0: Point,
    v1: Point,
    t: NormalizedF32Exclusive,
    r: Point,
) -> bool {
    exists|step: Point|
        {
            &&& #[trigger] call_ensures(A::difference, (arith, v1, v0), step)
            &&& is_times_plus(arith, pair_of(step), both(t@), pair_of(v0), pair_of(r))
        }
}

/// The point between `v0` and `v1` at `t`.
pub fn interp<A: CurveArithmetic>(v0: Point, v1: Point, t: NormalizedF32Exclusive, arith: &A) -> (r:
    Point)
    ensures
        is_interp(arith, v0, v1, t, r),
{
    let step = arith.difference(v1, v0);
    let tt = f32x2::splat(t.get());
    let scale = step.to_f32x2();
    let start = v0.to_f32x2();
    let value = scale.times_plus(tt, start, arith);
    let r = Point::from_f32x2(value);
    proof {
        assert(tt.0 =~= both(t@).0);
        assert(value.0 =~= pair_of(r).0);
        assert(scale.0 =~= pair_of(step).0);
        assert(start.0 =~= pair_of(v0).0);
    }
    r
}

/// `dst` is `src` chopped at `t`: the two quadratics `dst[0..3]` and
/// `dst[2..5]`, built by interpolating at `t` between neighbours, and once
/// more between the results.
///
/// ```text
/// src[0]          src[1]          src[2]
///    \            /    \            /
///     dst[1] ----       ---- dst[3]
///          \                /
///           ---- dst[2] ----
/// ```
pub open spec fn is_quad_chop<A: CurveArithmetic>(
    arith: &A,
    src: Seq<Point>,
    t: NormalizedF32Exclusive,
    dst: [Point; 5],
) -> bool {
    &&& dst[0] == src[0]
    &&& is_interp(arith, src[0], src[1], t, dst[1])
    &&& is_interp(arith, src[1], src[2], t, dst[3])
    &&& is_interp(arith, dst[1], dst[3], t, dst[2])
    &&& dst[4] == src[2]
}

/// Chops the quadratic through the first three points of `src` at `t`, by
/// De Casteljau's construction. `dst` gets the two halves: the first in
/// `dst[0..3]`, the second in `dst[2..5]`, sharing `dst[2]`.
///
/// The ends of the quadratic are not computed: they are copied, bit for bit.
pub fn chop_quad_at<A: CurveArithmetic>(
    src: &[Point],
    t: NormalizedF32Exclusive,
    dst: &mut [Point; 5],
    arith: &A,
)
    requires
        src.len() >= 3,
    ensures
        is_quad_chop(arith, src@, t, *final(dst)),
{
    let p0 = src[0];
    let p1 = src[1];
    let p2 = src[2];

    let p01 = interp(p0, p1, t, arith);
    let p12 = interp(p1, p2, t, arith);

    dst[0] = p0;
    dst[1] = p01;
    dst[2] = interp(p01, p12, t, arith);
    dst[3] = p12;
    dst[4] = p2;
}

/// The first seven points of `dst` are `src` chopped at `t`: the two cubics
/// `dst[0..4]` and `dst[3..7]`, built by interpolating at `t` between
/// neighbours three times over.
pub open spec fn is_cubic_chop<A: CurveArithmetic>(
    arith: &A,
    src: [Point; 4],
    t: NormalizedF32Exclusive,
    dst: Seq<Point>,
) -> bool {
    &&& dst.len() >= 7
    &&& dst[0] == src[0]
    &&& is_interp(arith, src[0], src[1], t, dst[1])
    &&& is_interp(arith, src[2], src[3], t, dst[5])
    &&& exists|bc: Point|
        {
            &&& is_interp(arith, src[1], src[2], t, bc)
            &&& is_interp(arith, dst[1], bc, t, dst[2])
            &&& is_interp(arith, bc, dst[5], t, dst[4])
        }
    &&& is_interp(arith, dst[2], dst[4], t, dst[3])
    &&& dst[6] == src[3]
}

/// Chops the cubic `src` at `t`, by De Casteljau's construction. The first
/// seven points of `dst` get the two halves: the first in `dst[0..4]`, the
/// second in `dst[3..7]`, sharing `dst[3]`. What lies behind them stays.
///
/// The ends of the cubic are not computed: they are copied, bit for bit.
pub fn chop_cubic_at2<A: CurveArithmetic>(
    src: &[Point; 4],
    t: NormalizedF32Exclusive,
    dst: &mut [Point],
    arith: &A,
)
    requires
        old(dst).len() >= 7,
    ensures
        is_cubic_chop(arith, *src, t, final(dst)@),
        final(dst).len() == old(dst).len(),
        forall|i: int| 7 <= i < old(dst).len() ==> #[trigger] final(dst)@[i] == old(dst)@[i],
{
    let p0 = src[0];
    let p1 = src[1];
    let p2 = src[2];
    let p3 = src[3];

    let ab = interp(p0, p1, t, arith);
    let bc = interp(p1, p2, t, arith);
    let cd = interp(p2, p3, t, arith);
    let abc = interp(ab, bc, t, arith);
    let bcd = interp(bc, cd, t, arith);
    let abcd = interp(abc, bcd, t, arith);

    dst[0] = p0;
    dst[1] = ab;
    dst[2] = abc;
    dst[3] = abcd;
    dst[4] = bcd;
    dst[5] = cd;
    dst[6] = p3;
}

/// `root` is what dividing `numer` by `denom` gives for a root in `(0, 1)`:
/// nothing where the operands show that the quotient cannot lie there, else
/// the quotient of the operands prepared, if it lies there.
pub open spec fn is_unit_quotient<A: RootArithmetic>(
    arith: &A,
    numer: Scalar,
    denom: Scalar,
    root: Option<Scalar>,
) -> bool {
    match unit_operands(numer, denom) {
        None => root is None,
        Some((n, d)) => exists|quotient: Scalar|
            {
                &&& #[trigger] call_ensures(A::divide, (arith, n, d), quotient)
                &&& root == if in_unit_open(quotient) {
                    Some(quotient)
                } else {
                    None
                }
            },
    }
}

/// Divides `numer` by `denom`, for a root in `(0, 1)`.
///
/// Returns the quotient if it lies strictly between zero and one, and
/// `None` otherwise. No division is made where the operands already show
/// that it cannot: where one of them is zero, or the numerator, once both
/// are turned so that it is positive, is not below the denominator.
///
/// Whatever the division returns, what is handed out lies in `(0, 1)`.
pub fn valid_unit_divide<A: RootArithmetic>(numer: Scalar, denom: Scalar, arith: &A) -> (r: Option<
    NormalizedF32Exclusive,
>)
    ensures
        is_unit_quotient(arith, numer, denom, option_value(r)),
        r matches Some(root) ==> in_unit_open(root@),
        unit_operands(numer, denom) is None ==> r is None,
{
    match unit_divide_operands(numer, denom) {
        None => None,
        Some((n, d)) => {
            let quotient = arith.divide(n, d);
            NormalizedF32Exclusive::new(quotient)
        },
    }
}

/// `q` is the term from which the two roots of a quadratic follow, given
/// its coefficient `b` and the root `r` of its discriminant: half of `b` and
/// `r` combined, negated, with `r` given the sign of `b` before, so that the
/// two never cancel.
pub open spec fn is_root_term<A: RootArithmetic>(arith: &A, b: Scalar, r: Scalar, q: Scalar) -> bool {
    if b.less(Scalar { bits: 0 }) {
        call_ensures(A::half_difference_negated, (arith, b, r), q)
    } else {
        call_ensures(A::half_sum_negated, (arith, b, r), q)
    }
}

/// `after` and `count` are what the roots `q / a` and `c / q` of a
/// quadratic, `q` being its root term, leave of the buffer `before` and are
/// in number.
pub open spec fn are_roots_by_term<A: RootArithmetic>(
    arith: &A,
    a: Scalar,
    b: Scalar,
    c: Scalar,
    r: Scalar,
    before: Seq<Scalar>,
    after: Seq<Scalar>,
    count: nat,
) -> bool {
    exists|q: Scalar, first: Option<Scalar>, second: Option<Scalar>|
        {
            &&& #[trigger] is_root_term(arith, b, r, q)
            &&& #[trigger] is_unit_quotient(arith, q, a, first)
            &&& #[trigger] is_unit_quotient(arith, c, q, second)
            &&& (after, count) == collected_roots(first, second, before)
        }
}

/// `after` and `count` are what the roots in `(0, 1)` of `a t^2 + b t + c`
/// leave of the buffer `before` and are in number.
///
/// With `a` zero the equation is linear, and its root is `-c / b`.
/// Otherwise there is no root where the root of the discriminant is not
/// finite, and else the roots follow from the root term.
pub open spec fn are_unit_quad_roots<A: RootArithmetic>(
    arith: &A,
    a: Scalar,
    b: Scalar,
    c: Scalar,
    before: Seq<Scalar>,
    after: Seq<Scalar>,
    count: nat,
) -> bool {
    if a.same(Scalar { bits: 0 }) {
        exists|root: Option<Scalar>|
            {
                &&& #[trigger] is_unit_quotient(arith, c.negated(), b, root)
                &&& (after, count) == collected_roots(root, None, before)
            }
    } else {
        exists|r: Scalar|
            {
                &&& #[trigger] call_ensures(A::discriminant_root, (arith, a, b, c), r)
                &&& if r.finite() {
                    are_roots_by_term(arith, a, b, c, r, before, after, count)
                } else {
                    after == before && count == 0
                }
            }
    }
}

/// Whatever the arithmetic gives, the roots collected lie in `(0, 1)` and
/// increase, they are two at most, and what lies behind them in the buffer
/// is what lay there before.
pub proof fn lemma_collected_roots_are_in_order(
    first: Option<Scalar>,
    second: Option<Scalar>,
    before: Seq<Scalar>,
)
    requires
        before.len() == 3,
        first matches Some(root) ==> in_unit_open(root),
        second matches Some(root) ==> in_unit_open(root),
    ensures
        ({
            let (after, count) = collected_roots(first, second, before);
            &&& count <= 2
            &&& after.len() == 3
            &&& strictly_ascending(after.take(count as int))
            &&& forall|i: int| 0 <= i < count ==> in_unit_open(#[trigger] after[i])
            &&& after[2] == before[2]
            &&& count == 0 ==> after == before
            &&& second is None ==> count <= 1
        }),
{
}

/// Finds the roots of `a t^2 + b t + c` that lie in `(0, 1)`, writes them
/// to the front of `roots`, smaller first, and returns how many there are:
/// none, one or two. Two equal roots count once. What lies behind the roots
/// in the buffer holds no root.
///
/// With `a` zero the equation is linear, and its root is `-c / b`.
/// Otherwise, with `r` the square root of the discriminant, the roots are
/// `q / a` and `c / q`, where `q` is `-(b - r) / 2` for a negative `b` and
/// `-(b + r) / 2` for any other: the form of the formula that never
/// subtracts two values that are nearly equal. There is no root where `r` is
/// not finite, as it is not where the discriminant is negative.
///
/// Whatever the arithmetic returns, the roots handed out lie in `(0, 1)`
/// and increase.
pub fn find_unit_quad_roots<A: RootArithmetic>(
    a: Scalar,
    b: Scalar,
    c: Scalar,
    roots: &mut [NormalizedF32Exclusive; 3],
    arith: &A,
) -> (count: usize)
    ensures
        are_unit_quad_roots(
            arith,
            a,
            b,
            c,
            open_values3(*old(roots)),
            open_values3(*final(roots)),
            count as nat,
        ),
        count <= 2,
        a.same(Scalar { bits: 0 }) ==> count <= 1,
        strictly_ascending(open_values3(*final(roots)).take(count as int)),
        forall|i: int| 0 <= i < count ==> in_unit_open(#[trigger] open_values3(*final(roots))[i]),
        open_values3(*final(roots))[2] == open_values3(*old(roots))[2],
        count == 0 ==> open_values3(*final(roots)) == open_values3(*old(roots)),
{
    let zero = Scalar::zero();
    if a == zero {
        let root = valid_unit_divide(c.neg(), b, arith);
        let count = collect_unit_roots(root, None, roots);
        assert(is_unit_quotient(arith, c.negated(), b, option_value(root)));
        return count;
    }
    let r = arith.discriminant_root(a, b, c);
    if !r.is_finite() {
        return 0;
    }
    let q = if b.lt(&zero) {
        arith.half_difference_negated(b, r)
    } else {
        arith.half_sum_negated(b, r)
    };
    let first = valid_unit_divide(q, a, arith);
    let second = valid_unit_divide(c, q, arith);
    let count = collect_unit_roots(first, second, roots);
    proof {
        assert(is_root_term(arith, b, r, q));
        assert(is_unit_quotient(arith, q, a, option_value(first)));
        assert(is_unit_quotient(arith, c, q, option_value(second)));
        assert(are_roots_by_term(
            arith,
            a,
            b,
            c,
            r,
            open_values3(*old(roots)),
            open_values3(*roots),
            count as nat,
        ));
    }
    count
}

/// The three values held to `[0, 1]`.
pub open spec fn clamped3(a: Scalar, b: Scalar, c: Scalar) -> Seq<Scalar> {
    seq![clamped_to_unit(a), clamped_to_unit(b), clamped_to_unit(c)]
}

/// Sorting three numbers loses none of them.
proof fn lemma_sorting_loses_no_value(s: Seq<Scalar>)
    requires
        s.len() == 3,
        !s[0].nan(),
        !s[1].nan(),
        !s[2].nan(),
    ensures
        keeps_all3(sorted3(s), 3, s),
        !sorted3(s)[0].nan(),
        !sorted3(s)[1].nan(),
        !sorted3(s)[2].nan(),
{
    let once = exchanged(s, 0, 1);
    let twice = exchanged(once, 1, 2);
    let t = exchanged(twice, 0, 1);
    assert(t == sorted3(s));
    assert(t[0] == s[0] || t[0] == s[1] || t[0] == s[2]);
    assert(t[1] == s[0] || t[1] == s[1] || t[1] == s[2]);
    assert(t[2] == s[0] || t[2] == s[1] || t[2] == s[2]);
    assert(s[0] == t[0] || s[0] == t[1] || s[0] == t[2]);
    assert(s[1] == t[0] || s[1] == t[1] || s[1] == t[2]);
    assert(s[2] == t[0] || s[2] == t[1] || s[2] == t[2]);
    assert(is_kept(t, 3, s[0])) by {
        assert(s[0].same(t[0]) || s[0].same(t[1]) || s[0].same(t[2]));
    }
    assert(is_kept(t, 3, s[1])) by {
        assert(s[1].same(t[0]) || s[1].same(t[1]) || s[1].same(t[2]));
    }
    assert(is_kept(t, 3, s[2])) by {
        assert(s[2].same(t[0]) || s[2].same(t[1]) || s[2].same(t[2]));
    }
}

/// What is kept of what holds every value of a triple holds every value of
/// it too.
proof fn lemma_kept_of_kept(s: Seq<Scalar>, t: Seq<Scalar>, kept: Seq<Scalar>, len: int)
    requires
        s.len() == 3,
        t.len() == 3,
        keeps_all3(t, 3, s),
        keeps_all3(kept, len, t),
    ensures
        keeps_all3(kept, len, s),
{
    assert forall|value: Scalar| is_kept(t, 3, value) implies is_kept(kept, len, value) by {
        let j = choose|j: int| 0 <= j < 3 && value.same(#[trigger] t[j]);
        assert(is_kept(kept, len, t[j]));
        let k = choose|k: int| 0 <= k < len && t[j].same(#[trigger] kept[k]);
        assert(value.same(kept[k]));
    }
}

/// Puts the three roots of a cubic in order: each is held to `[0, 1]`, the
/// three are sorted, and the distinct values among them are brought to the
/// front. Returns how many those are. The kept roots increase, and every
/// root, held to the interval, equals one of them.
pub fn order_three_roots(a: Scalar, b: Scalar, c: Scalar, t_values: &mut [NormalizedF32; 3]) -> (len:
    usize)
    ensures
        values3(*final(t_values)) == collapsed3(sorted3(clamped3(a, b, c))),
        len == distinct_prefix3(sorted3(clamped3(a, b, c))),
        1 <= len <= 3,
        ascending(values3(*final(t_values))),
        strictly_ascending(values3(*final(t_values)).take(len as int)),
        keeps_all3(values3(*final(t_values)), len as int, clamped3(a, b, c)),
        forall|i: int| 0 <= i < 3 ==> in_unit_closed(#[trigger] values3(*final(t_values))[i]),
{
    t_values[0] = NormalizedF32::new_clamped(a);
    t_values[1] = NormalizedF32::new_clamped(b);
    t_values[2] = NormalizedF32::new_clamped(c);
    assert(values3(*t_values) =~= clamped3(a, b, c));
    sort_array3(t_values);
    let ghost sorted = values3(*t_values);
    let len = collapse_duplicates3(t_values);
    proof {
        lemma_clamped_to_unit(a);
        lemma_clamped_to_unit(b);
        lemma_clamped_to_unit(c);
        lemma_sorting_loses_no_value(clamped3(a, b, c));
        lemma_kept_of_kept(clamped3(a, b, c), sorted, values3(*t_values), len as int);
        assert(in_unit_closed(sorted[0]) && in_unit_closed(sorted[1]) && in_unit_closed(sorted[2]));
        let s = values3(*t_values);
        assert(in_unit_closed(s[0]) && in_unit_closed(s[1]) && in_unit_closed(s[2]));
    }
    len
}

/// The real roots of a cubic, before they are held to the unit interval.
pub enum CubicRoots {
    /// The cubic has three real roots.
    Three(Scalar, Scalar, Scalar),
    /// The cubic has one real root.
    One(Scalar),
}

/// What [`solve_cubic_poly`] leaves in the buffer `before` and returns,
/// given the roots of the cubic.
pub open spec fn ordered_cubic_roots(roots: CubicRoots, before: Seq<Scalar>) -> (Seq<Scalar>, nat) {
    match roots {
        CubicRoots::Three(a, b, c) => (
            collapsed3(sorted3(clamped3(a, b, c))),
            distinct_prefix3(sorted3(clamped3(a, b, c))),
        ),
        CubicRoots::One(a) => (before.update(0, clamped_to_unit(a)), 1),
    }
}

/// `root` is the one real root of a cubic with the terms `terms`: with `s`
/// the cube root of `|r| + sqrt(r^2 - q^3)`, negated where `r` is above
/// zero, it is `s + q / s - a / 3`, and `s - a / 3` where `s` is zero.
pub open spec fn is_single_root<A: RootArithmetic>(arith: &A, terms: CubicTerms, root: Scalar) -> bool {
    exists|magnitude: Scalar, sum: Scalar|
        {
            &&& #[trigger] call_ensures(
                A::cube_root_term,
                (arith, terms.r.absolute(), terms.r2_minus_q3),
                magnitude,
            )
            &&& if signed_as(magnitude, terms.r).same(Scalar { bits: 0 }) {
                sum == signed_as(magnitude, terms.r)
            } else {
                call_ensures(A::plus_quotient, (arith, signed_as(magnitude, terms.r), terms.q), sum)
            }
            &&& #[trigger] call_ensures(A::minus, (arith, sum, terms.adiv3), root)
        }
}

/// `magnitude`, negated where `r` is above zero.
pub open spec fn signed_as(magnitude: Scalar, r: Scalar) -> Scalar {
    if (Scalar { bits: 0 }).less(r) {
        magnitude.negated()
    } else {
        magnitude
    }
}

/// The value of `[-1, 1]` nearest to `s`; one where `s` is a NaN.
pub open spec fn bounded_cosine(s: Scalar) -> Scalar {
    if s.nan() || s.key() >= ONE_BITS {
        Scalar { bits: ONE_BITS }
    } else if s.key() <= -ONE_BITS {
        Scalar { bits: MINUS_ONE_BITS }
    } else {
        s
    }
}

/// Holds a cosine that rounding took outside `[-1, 1]` to that interval, so
/// that an angle can be found for it.
pub fn bound_cosine(s: Scalar) -> (r: Scalar)
    ensures
        r == bounded_cosine(s),
        !r.nan(),
        -ONE_BITS <= r.key() <= ONE_BITS,
{
    let one = Scalar::one();
    let minus_one = Scalar::from_bits(MINUS_ONE_BITS);
    if s.is_nan() || s.ge(&one) {
        one
    } else if s.le(&minus_one) {
        minus_one
    } else {
        s
    }
}

/// `a`, `b` and `c` are the three real roots of a cubic with the terms
/// `terms`: those of the angle whose cosine the arithmetic finds, held to
/// `[-1, 1]`.
pub open spec fn are_three_roots<A: RootArithmetic>(
    arith: &A,
    terms: CubicTerms,
    a: Scalar,
    b: Scalar,
    c: Scalar,
) -> bool {
    exists|cosine: Scalar|
        {
            &&& #[trigger] call_ensures(A::angle_cosine, (arith, terms), cosine)
            &&& call_ensures(A::three_cubic_roots, (arith, terms, bounded_cosine(cosine)), (a, b, c))
        }
}

/// `roots` are the real roots of the cubic with the coefficients `coeff`:
/// three where `r^2 - q^3` is below zero, else one.
pub open spec fn are_cubic_roots<A: RootArithmetic>(
    arith: &A,
    coeff: &[Scalar; 4],
    roots: CubicRoots,
) -> bool {
    exists|terms: CubicTerms|
        {
            &&& #[trigger] call_ensures(A::cubic_terms, (arith, coeff), terms)
            &&& if terms.r2_minus_q3.less(Scalar { bits: 0 }) {
                roots matches CubicRoots::Three(a, b, c) && are_three_roots(arith, terms, a, b, c)
            } else {
                roots matches CubicRoots::One(root) && is_single_root(arith, terms, root)
            }
        }
}

/// The values of a buffer to which no root was written yet: three times one
/// half.
pub open spec fn fresh_t_values() -> Seq<Scalar> {
    seq![Scalar { bits: HALF_BITS }, Scalar { bits: HALF_BITS }, Scalar { bits: HALF_BITS }]
}

/// The buffer `before` with its first `count` values taken from `found`.
pub open spec fn with_front(before: Seq<Scalar>, found: Seq<Scalar>, count: nat) -> Seq<Scalar> {
    Seq::new(
        3,
        |i: int|
            if i < count {
                found[i]
            } else {
                before[i]
            },
    )
}

/// `after` and `count` are what the roots in the unit interval of the
/// cubic with the coefficients `coeff` leave of the buffer `before` and are
/// in number.
///
/// Where the leading coefficient is nearly zero they are the roots in
/// `(0, 1)` of the quadratic that is left. Otherwise they are the real roots
/// of the cubic, three or one, held to `[0, 1]`, in order, and no root twice.
pub open spec fn is_cubic_solved<A: RootArithmetic>(
    arith: &A,
    coeff: &[Scalar; 4],
    before: Seq<Scalar>,
    after: Seq<Scalar>,
    count: nat,
) -> bool {
    if coeff[0].absolute().at_most(Scalar { bits: NEARLY_ZERO_BITS }) {
        exists|found: Seq<Scalar>|
            {
                &&& #[trigger] are_unit_quad_roots(
                    arith,
                    coeff[1],
                    coeff[2],
                    coeff[3],
                    fresh_t_values(),
                    found,
                    count,
                )
                &&& after == with_front(before, found, count)
            }
    } else {
        exists|roots: CubicRoots|
            {
                &&& #[trigger] are_cubic_roots(arith, coeff, roots)
                &&& (after, count) == ordered_cubic_roots(roots, before)
            }
    }
}

/// Solves `coeff[0] t^3 + coeff[1] t^2 + coeff[2] t + coeff[3] = 0` for `t`
/// in the unit interval. The roots are written to the front of `t_values`,
/// and their number, at most three, is returned. The roots are distinct and
/// increase.
///
/// Where the leading coefficient is nearly zero the cubic is taken for the
/// quadratic that is left, and the roots are those of it that lie strictly
/// inside the interval. Otherwise the real roots of the cubic, three or one,
/// are held to the interval: one that lies outside counts as the end it lies
/// beyond.
pub fn solve_cubic_poly<A: RootArithmetic>(
    coeff: &[Scalar; 4],
    t_values: &mut [NormalizedF32; 3],
    arith: &A,
) -> (count: usize)
    ensures
        is_cubic_solved(
            arith,
            coeff,
            values3(*old(t_values)),
            values3(*final(t_values)),
            count as nat,
        ),
        count <= 3,
        strictly_ascending(values3(*final(t_values)).take(count as int)),
        forall|i: int| 0 <= i < count ==> in_unit_closed(#[trigger] values3(*final(t_values))[i]),
        coeff[0].absolute().at_most(Scalar { bits: NEARLY_ZERO_BITS }) ==> {
            &&& count <= 2
            &&& forall|i: int|
                0 <= i < count ==> in_unit_open(#[trigger] values3(*final(t_values))[i])
        },
{
    if coeff[0].is_nearly_zero() {
        // What is left is a quadratic.
        let mut tmp_t = new_t_values();
        let ghost halves = open_values3(tmp_t);
        let count = find_unit_quad_roots(coeff[1], coeff[2], coeff[3], &mut tmp_t, arith);
        widen_roots(&tmp_t, count, t_values);
        proof {
            let found = open_values3(tmp_t);
            let kept = values3(*t_values).take(count as int);
            assert(kept =~= found.take(count as int));
            assert(halves =~= fresh_t_values());
            assert(values3(*t_values) =~= with_front(
                values3(*old(t_values)),
                found,
                count as nat,
            ));
        }
        return count;
    }
    let zero = Scalar::zero();
    let terms = arith.cubic_terms(coeff);
    if terms.r2_minus_q3.lt(&zero) {
        // Three real roots.
        let cosine = bound_cosine(arith.angle_cosine(terms));
        let (a, b, c) = arith.three_cubic_roots(terms, cosine);
        assert(are_three_roots(arith, terms, a, b, c));
        let count = order_three_roots(a, b, c, t_values);
        proof {
            let roots = CubicRoots::Three(a, b, c);
            assert(are_cubic_roots(arith, coeff, roots));
            let answer = ordered_cubic_roots(roots, values3(*old(t_values)));
            assert(values3(*t_values) == answer.0 && count == answer.1);
        }
        count
    } else {
        // One real root.
        let magnitude = arith.cube_root_term(terms.r.abs(), terms.r2_minus_q3);
        let signed = if terms.r.gt(&zero) {
            magnitude.neg()
        } else {
            magnitude
        };
        let sum = if signed != zero {
            arith.plus_quotient(signed, terms.q)
        } else {
            signed
        };
        let root = arith.minus(sum, terms.adiv3);
        t_values[0] = NormalizedF32::new_clamped(root);
        proof {
            lemma_clamped_to_unit(root);
            assert(values3(*t_values) =~= values3(*old(t_values)).update(0, clamped_to_unit(root)));
            assert(is_single_root(arith, terms, root));
            let roots = CubicRoots::One(root);
            assert(are_cubic_roots(arith, coeff, roots));
        }
        1
    }
}

/// `after` and `count` are what the parameters of greatest curvature of the
/// cubic through `src` leave of the buffer `before` and are in number: the
/// roots in the unit interval of the dot product of the first and the second
/// derivative of the curve, which is a cubic in the parameter.
pub open spec fn is_max_curvature<A: RootArithmetic + CurveArithmetic>(
    arith: &A,
    src: &[Point; 4],
    before: Seq<Scalar>,
    after: Seq<Scalar>,
    count: nat,
) -> bool {
    exists|coeff: [Scalar; 4]|
        {
            &&& #[trigger] call_ensures(A::max_curvature_coefficients, (arith, src), coeff)
            &&& is_cubic_solved(arith, &coeff, before, after, count)
        }
}

/// Finds the parameters at which the curvature of the cubic through `src`
/// is greatest: the roots in the unit interval of the dot product of its
/// first and its second derivative, a cubic in the parameter. They are
/// written to the front of `t_values`, and their number, at most three, is
/// returned. They are distinct and increase.
pub fn find_cubic_max_curvature<A: RootArithmetic + CurveArithmetic>(
    src: &[Point; 4],
    t_values: &mut [NormalizedF32; 3],
    arith: &A,
) -> (count: usize)
    ensures
        is_max_curvature(
            arith,
            src,
            values3(*old(t_values)),
            values3(*final(t_values)),
            count as nat,
        ),
        count <= 3,
        strictly_ascending(values3(*final(t_values)).take(count as int)),
        forall|i: int| 0 <= i < count ==> in_unit_closed(#[trigger] values3(*final(t_values))[i]),
{
    let coeff = arith.max_curvature_coefficients(src);
    solve_cubic_poly(&coeff, t_values, arith)
}

/// Finds the parameter in `(0, 1)`, if there is one, at which the derivative
/// of the quadratic through the values `a`, `b` and `c` vanishes: where one
/// coordinate of a quadratic curve through three points is at its greatest
/// or its least.
pub fn find_quad_extrema<A: RootArithmetic>(a: Scalar, b: Scalar, c: Scalar, arith: &A) -> (r:
    Option<NormalizedF32Exclusive>)
    ensures
        exists|numer: Scalar, denom: Scalar|
            {
                &&& #[trigger] call_ensures(A::quad_extremum_ratio, (arith, a, b, c), (numer, denom))
                &&& is_unit_quotient(arith, numer, denom, option_value(r))
            },
        r matches Some(root) ==> in_unit_open(root@),
{
    let (numer, denom) = arith.quad_extremum_ratio(a, b, c);
    valid_unit_divide(numer, denom, arith)
}

/// Finds the parameters in `(0, 1)` at which the derivative of the cubic
/// through the values `a`, `b`, `c` and `d` vanishes. They are written to
/// the front of `t_values`, smaller first, and their number, at most two,
/// is returned.
pub fn find_cubic_extrema<A: RootArithmetic>(
    a: Scalar,
    b: Scalar,
    c: Scalar,
    d: Scalar,
    t_values: &mut [NormalizedF32Exclusive; 3],
    arith: &A,
) -> (count: usize)
    ensures
        exists|coeff: [Scalar; 3]|
            {
                &&& #[trigger] call_ensures(
                    A::cubic_extrema_coefficients,
                    (arith, a, b, c, d),
                    coeff,
                )
                &&& are_unit_quad_roots(
                    arith,
                    coeff[0],
                    coeff[1],
                    coeff[2],
                    open_values3(*old(t_values)),
                    open_values3(*final(t_values)),
                    count as nat,
                )
            },
        count <= 2,
        strictly_ascending(open_values3(*final(t_values)).take(count as int)),
        forall|i: int| 0 <= i < count ==> in_unit_open(#[trigger] open_values3(*final(t_values))[i]),
        open_values3(*final(t_values))[2] == open_values3(*old(t_values))[2],
        count == 0 ==> open_values3(*final(t_values)) == open_values3(*old(t_values)),
{
    let coeff = arith.cubic_extrema_coefficients(a, b, c, d);
    find_unit_quad_roots(coeff[0], coeff[1], coeff[2], t_values, arith)
}

/// Finds the parameters in `(0, 1)` at which the cubic through `src` turns
/// from bending one way to bending the other: where its curvature is zero.
/// They are written to the front of `t_values`, smaller first, and their
/// number, at most two, is returned.
pub fn find_cubic_inflections<A: RootArithmetic + CurveArithmetic>(
    src: &[Point; 4],
    t_values: &mut [NormalizedF32Exclusive; 3],
    arith: &A,
) -> (count: usize)
    ensures
        exists|coeff: [Scalar; 3]|
            {
                &&& #[trigger] call_ensures(A::inflection_coefficients, (arith, src), coeff)
                &&& are_unit_quad_roots(
                    arith,
                    coeff[0],
                    coeff[1],
                    coeff[2],
                    open_values3(*old(t_values)),
                    open_values3(*final(t_values)),
                    count as nat,
                )
            },
        count <= 2,
        strictly_ascending(open_values3(*final(t_values)).take(count as int)),
        forall|i: int| 0 <= i < count ==> in_unit_open(#[trigger] open_values3(*final(t_values))[i]),
        open_values3(*final(t_values))[2] == open_values3(*old(t_values))[2],
        count == 0 ==> open_values3(*final(t_values)) == open_values3(*old(t_values)),
{
    let coeff = arith.inflection_coefficients(src);
    find_unit_quad_roots(coeff[0], coeff[1], coeff[2], t_values, arith)
}

/// Finds the parameter in `[0, 1]` at which the curvature of the quadratic
/// through `src` is greatest. It is an end of the curve where the quotient
/// that gives it lies beyond that end, and zero where the quotient is no
/// number.
pub fn find_quad_max_curvature<A: RootArithmetic + CurveArithmetic>(src: &[Point; 3], arith: &A) -> (r:
    NormalizedF32)
    ensures
        in_unit_closed(r@),
        exists|numer: Scalar, denom: Scalar|
            {
                &&& call_ensures(A::quad_max_curvature_ratio, (arith, src), (numer, denom))
                &&& match clamped_ratio(numer, denom) {
                    UnitRatio::Zero => r@ == (Scalar { bits: 0 }),
                    UnitRatio::One => r@ == (Scalar { bits: ONE_BITS }),
                    UnitRatio::Quotient(n, d) => exists|quotient: Scalar|
                        call_ensures(A::divide, (arith, n, d), quotient) && r@ == clamped_to_unit(
                            quotient,
                        ),
                }
            },
{
    let (numer, denom) = arith.quad_max_curvature_ratio(src);
    let r = match clamped_divide_operands(numer, denom) {
        UnitRatio::Zero => NormalizedF32::zero(),
        UnitRatio::One => NormalizedF32::one(),
        UnitRatio::Quotient(n, d) => {
            let quotient = arith.divide(n, d);
            proof {
                lemma_clamped_to_unit(quotient);
            }
            NormalizedF32::new_clamped(quotient)
        },
    };
    r
}

/// The tangent at `t` of the quadratic through `src`: its derivative there,
/// or, where the derivative vanishes because `t` is an end and the control
/// point lies on it, the chord from the first point to the last.
pub fn eval_quad_tangent_at<A: CurveArithmetic>(src: &[Point; 3], t: NormalizedF32, arith: &A) -> (r:
    Point)
    ensures
        if quad_tangent_degenerate(*src, t@) {
            call_ensures(A::difference, (arith, src[2], src[0]), r)
        } else {
            call_ensures(A::quad_derivative, (arith, src, t), r)
        },
{
    // At an end on which the control point lies the derivative is zero, and
    // the ends of the curve give the direction instead.
    if quad_tangent_is_chord(src, t) {
        return arith.difference(src[2], src[0]);
    }
    arith.quad_derivative(src, t)
}

/// `r` is the tangent at `t` of the cubic through `src`: its derivative
/// there, or, where the derivative vanishes because `t` is an end and the
/// control point next to it lies on it, the chord to the control point after
/// that, or, where that chord is zero too, the chord from the first point to
/// the last.
pub open spec fn is_cubic_tangent<A: CurveArithmetic>(
    arith: &A,
    src: &[Point; 4],
    t: NormalizedF32,
    r: Point,
) -> bool {
    match cubic_chord(*src, t@) {
        None => is_cubic_derivative(arith, src, t, r),
        Some((from, to)) => exists|chord: Point|
            {
                &&& call_ensures(A::difference, (arith, src[to as int], src[from as int]), chord)
                &&& if chord.same(Point { x: Scalar { bits: 0 }, y: Scalar { bits: 0 } }) {
                    call_ensures(A::difference, (arith, src[3], src[0]), r)
                } else {
                    r == chord
                }
            },
    }
}

/// The tangent at `t` of the cubic through `src`.
pub fn eval_cubic_tangent_at<A: CurveArithmetic>(src: &[Point; 4], t: NormalizedF32, arith: &A) -> (r:
    Point)
    ensures
        is_cubic_tangent(arith, src, t, r),
{
    // At an end on which the control point next to it lies the derivative is
    // zero. The control point after that gives the direction instead, and the
    // far end where that one lies on the end too.
    match cubic_tangent_chord(src, t) {
        Some((from, to)) => {
            let mut tangent = arith.difference(src[to], src[from]);
            if tangent.is_zero() {
                tangent = arith.difference(src[3], src[0]);
            }
            tangent
        },
        None => eval_cubic_derivative(src, t, arith),
    }
}

/// Whether the points `src[test_index]` and `src[test_index + 1]` lie on the
/// same side of the line through `src[line_index]` and
/// `src[line_index + 1]`: whether the cross products of the line with the
/// vectors to the two have a product that is not below zero. A point on the
/// line lies on either side.
pub fn on_same_side<A: CurveArithmetic>(
    src: &[Point; 4],
    test_index: usize,
    line_index: usize,
    arith: &A,
) -> (r: bool)
    requires
        test_index <= 2,
        line_index <= 2,
    ensures
        is_on_same_side(arith, src, test_index, line_index, r),
{
    let product = arith.side_product(src, test_index, line_index);
    product.ge(&Scalar::zero())
}

/// `magnitude` is the squared length of the derivative at `t` of the cubic
/// through `src`.
pub open spec fn is_derivative_length<A: CurveArithmetic>(
    arith: &A,
    src: &[Point; 4],
    t: NormalizedF32,
    magnitude: Scalar,
) -> bool {
    exists|derivative: Point|
        {
            &&& #[trigger] is_cubic_derivative(arith, src, t, derivative)
            &&& call_ensures(A::length_sqd, (arith, derivative), magnitude)
        }
}

/// `magnitudes` holds, for each of the first `count` candidates, the squared
/// length of the derivative of the cubic through `src` there.
pub open spec fn are_derivative_lengths<A: CurveArithmetic>(
    arith: &A,
    src: &[Point; 4],
    t_values: [NormalizedF32; 3],
    count: int,
    magnitudes: [Scalar; 3],
) -> bool {
    forall|k: int|
        0 <= k < count ==> #[trigger] is_derivative_length(arith, src, t_values[k], magnitudes[k])
}

/// Three zeros: the values of a buffer for points of greatest curvature
/// before any is written to it.
pub open spec fn three_zeros() -> Seq<Scalar> {
    seq![Scalar { bits: 0 }, Scalar { bits: 0 }, Scalar { bits: 0 }]
}

/// `cusp` is the cusp among the points of greatest curvature of the cubic
/// through `src`: the first of them, strictly inside the curve, at which the
/// squared length of the derivative is below the precision of the cubic.
pub open spec fn is_cusp_among_max_curvature<A: RootArithmetic + CurveArithmetic>(
    arith: &A,
    src: &[Point; 4],
    cusp: Option<Scalar>,
) -> bool {
    exists|t_values: [NormalizedF32; 3], magnitudes: [Scalar; 3], count: nat, precision: Scalar|
        {
            &&& count <= 3
            &&& is_max_curvature(arith, src, three_zeros(), values3(t_values), count)
            &&& are_derivative_lengths(arith, src, t_values, count as int, magnitudes)
            &&& call_ensures(A::cubic_precision, (arith, src), precision)
            &&& cusp == #[trigger] cusp_among(t_values, magnitudes, count as int, precision)
        }
}

/// The two test points lie on the same side of the line, as
/// [`on_same_side`] finds it.
pub open spec fn is_on_same_side<A: CurveArithmetic>(
    arith: &A,
    src: &[Point; 4],
    test_index: usize,
    line_index: usize,
    same: bool,
) -> bool {
    exists|product: Scalar|
        {
            &&& #[trigger] call_ensures(A::side_product, (arith, src, test_index, line_index), product)
            &&& same == (Scalar { bits: 0 }).at_most(product)
        }
}

/// `cusp` is the cusp of the cubic through `src`, if it has one.
///
/// It has none where an end has its control point on it, nor where the two
/// handles do not cross: where the points of one lie on the same side of the
/// line through the other. Else its cusp is the one among its points of
/// greatest curvature.
pub open spec fn is_cubic_cusp<A: RootArithmetic + CurveArithmetic>(
    arith: &A,
    src: &[Point; 4],
    cusp: Option<Scalar>,
) -> bool {
    if src[0].same(src[1]) || src[2].same(src[3]) {
        cusp is None
    } else {
        exists|first_same: bool|
            {
                &&& #[trigger] is_on_same_side(arith, src, 0, 2, first_same)
                &&& if first_same {
                    cusp is None
                } else {
                    exists|second_same: bool|
                        {
                            &&& #[trigger] is_on_same_side(arith, src, 2, 0, second_same)
                            &&& if second_same {
                                cusp is None
                            } else {
                                is_cusp_among_max_curvature(arith, src, cusp)
                            }
                        }
                }
            }
    }
}

/// Finds the cusp of the cubic through `src`, if it has one: the parameter,
/// strictly inside the curve, of a point of greatest curvature at which the
/// derivative all but vanishes.
///
/// There is none where an end of the cubic has its control point on it: the
/// curve then behaves as if it had a cusp at that end, and such cubics are
/// common. There is none either unless the two segments from the ends to
/// their control points cross. Otherwise the first point of greatest
/// curvature strictly inside the curve counts whose derivative has a squared
/// length below the precision of the cubic; its parameter is returned, held
/// to `[epsilon, 1 - epsilon]`.
#[verifier::loop_isolation(false)]
pub fn find_cubic_cusp<A: RootArithmetic + CurveArithmetic>(src: &[Point; 4], arith: &A) -> (r:
    Option<NormalizedF32Exclusive>)
    ensures
        is_cubic_cusp(arith, src, option_value(r)),
        src[0].same(src[1]) || src[2].same(src[3]) ==> r is None,
        r matches Some(cusp) ==> EPSILON_BITS <= cusp@.key() <= ONE_MINUS_EPSILON_BITS,
{
    // A control point on its end makes the derivative vanish at that end, as
    // at a cusp. Such cubics are common and are no cusps.
    if !cusp_ends_allow(src) {
        return None;
    }
    // A cusp needs the two handles to cross: the ends of each lie on opposite
    // sides of the line through the other.
    let first_same = on_same_side(src, 0, 2, arith);
    assert(is_on_same_side(arith, src, 0, 2, first_same));
    if first_same {
        return None;
    }
    let second_same = on_same_side(src, 2, 0, arith);
    assert(is_on_same_side(arith, src, 2, 0, second_same));
    if second_same {
        return None;
    }
    // Of the points of greatest curvature at most one is a cusp.
    let mut t_values = [NormalizedF32::zero(), NormalizedF32::zero(), NormalizedF32::zero()];
    assert(values3(t_values) =~= three_zeros());
    let count = find_cubic_max_curvature(src, &mut t_values, arith);

    // At a cusp the derivative is short, measured against the size of the
    // cubic.
    let mut magnitudes = [Scalar::zero(), Scalar::zero(), Scalar::zero()];
    let mut i: usize = 0;
    while i < count
        invariant
            i <= count <= 3,
            are_derivative_lengths(arith, src, t_values, i as int, magnitudes),
        decreases count - i,
    {
        let d_pt = eval_cubic_derivative(src, t_values[i], arith);
        let ghost before = magnitudes;
        magnitudes[i] = arith.length_sqd(d_pt);
        assert forall|k: int| 0 <= k < i + 1 implies #[trigger] is_derivative_length(
            arith,
            src,
            t_values[k],
            magnitudes[k],
        ) by {
            if k < i {
                assert(is_derivative_length(arith, src, t_values[k], before[k]));
            } else {
                assert(is_cubic_derivative(arith, src, t_values[k], d_pt));
            }
        }
        i += 1;
    }
    let precision = arith.cubic_precision(src);

    // All candidates may lie close to the cusp: the first one is taken.
    let r = first_cusp(&t_values, &magnitudes, count, precision);
    proof {
        assert(is_max_curvature(arith, src, three_zeros(), values3(t_values), count as nat));
        assert(are_derivative_lengths(arith, src, t_values, count as int, magnitudes));
        assert(call_ensures(A::cubic_precision, (arith, src), precision));
        assert(option_value(r) == cusp_among(t_values, magnitudes, count as int, precision));
        assert(is_cusp_among_max_curvature(arith, src, option_value(r)));
        if r is Some {
            lemma_bounded_to_unit(t_values[0]@);
            lemma_bounded_to_unit(t_values[1]@);
            lemma_bounded_to_unit(t_values[2]@);
        }
    }
    r
}

} // verus!

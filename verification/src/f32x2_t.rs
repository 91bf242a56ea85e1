//! Pairs of single-precision values.

use vstd::prelude::*;
use vstd::std_specs::cmp::PartialEqSpecImpl;
use crate::arithmetic::CurveArithmetic;
use crate::arithmetic::ScalarArithmetic;
use crate::scalar::Scalar;

verus! {

/// The larger of two values: `a` where `b < a`, else `b`. On a tie, and
/// where one is a NaN so that nothing is less than anything, `b` is the
/// result.
pub open spec fn larger(a: Scalar, b: Scalar) -> Scalar {
    if b.less(a) {
        a
    } else {
        b
    }
}

/// The smaller of two values: `a` where `a < b`, else `b`. On a tie, and
/// where one is a NaN so that nothing is less than anything, `b` is the
/// result.
pub open spec fn smaller(a: Scalar, b: Scalar) -> Scalar {
    if a.less(b) {
        a
    } else {
        b
    }
}

/// The larger of two values, without regard for NaNs: the second where the
/// two are equal or cannot be compared.
pub fn pmax(a: Scalar, b: Scalar) -> (r: Scalar)
    ensures
        r == larger(a, b),
{
    if b.lt(&a) {
        a
    } else {
        b
    }
}

/// The smaller of two values, without regard for NaNs: the second where the
/// two are equal or cannot be compared.
pub fn pmin(a: Scalar, b: Scalar) -> (r: Scalar)
    ensures
        r == smaller(a, b),
{
    if a.lt(&b) {
        a
    } else {
        b
    }
}

/// A pair of single-precision values, each going its own way through every
/// operation: no operation mixes the two.
#[allow(non_camel_case_types)]
#[derive(Copy, Clone, Debug)]
pub struct f32x2(pub [Scalar; 2]);

impl f32x2 {
    /// The first value of the pair.
    pub open spec fn first(self) -> Scalar {
        self.0[0]
    }

    /// The second value of the pair.
    pub open spec fn second(self) -> Scalar {
        self.0[1]
    }

    /// Creates a new pair.
    pub fn new(a: Scalar, b: Scalar) -> (r: f32x2)
        ensures
            r.first() == a,
            r.second() == b,
    {
        f32x2([a, b])
    }

    /// Creates a new pair from a single value.
    pub fn splat(x: Scalar) -> (r: f32x2)
        ensures
            r.first() == x,
            r.second() == x,
    {
        f32x2([x, x])
    }

    /// Returns an absolute value.
    pub fn abs(self) -> (r: f32x2)
        ensures
            r.first() == self.first().absolute(),
            r.second() == self.second().absolute(),
    {
        f32x2([self.x().abs(), self.y().abs()])
    }

    /// Returns a minimum value: in each place the smaller of the two, the
    /// value of `other` where they are equal or cannot be compared.
    pub fn min(self, other: f32x2) -> (r: f32x2)
        ensures
            r.first() == smaller(self.first(), other.first()),
            r.second() == smaller(self.second(), other.second()),
    {
        f32x2([pmin(self.x(), other.x()), pmin(self.y(), other.y())])
    }

    /// Returns a maximum value: in each place the larger of the two, the
    /// value of `other` where they are equal or cannot be compared.
    pub fn max(self, other: f32x2) -> (r: f32x2)
        ensures
            r.first() == larger(self.first(), other.first()),
            r.second() == larger(self.second(), other.second()),
    {
        f32x2([pmax(self.x(), other.x()), pmax(self.y(), other.y())])
    }

    /// Returns a maximum of both values.
    pub fn max_component(self) -> (r: Scalar)
        ensures
            r == larger(self.first(), self.second()),
    {
        pmax(self.x(), self.y())
    }

    /// Returns the first value.
    pub fn x(&self) -> (r: Scalar)
        ensures
            r == self.first(),
    {
        self.0[0]
    }

    /// Returns the second value.
    pub fn y(&self) -> (r: Scalar)
        ensures
            r == self.second(),
    {
        self.0[1]
    }
}

/// `r` is `a * t + b`, each of the two values on its own.
pub open spec fn is_times_plus<A: CurveArithmetic>(
    arith: &A,
    a: f32x2,
    t: f32x2,
    b: f32x2,
    r: f32x2,
) -> bool {
    &&& call_ensures(A::times_plus, (arith, a.first(), t.first(), b.first()), r.first())
    &&& call_ensures(A::times_plus, (arith, a.second(), t.second(), b.second()), r.second())
}

impl f32x2 {
    /// `self * t + b`, each of the two values on its own: one step of
    /// Horner's scheme.
    pub fn times_plus<A: CurveArithmetic>(self, t: f32x2, b: f32x2, arith: &A) -> (r: f32x2)
        ensures
            is_times_plus(arith, self, t, b, r),
    {
        f32x2([arith.times_plus(self.x(), t.x(), b.x()), arith.times_plus(self.y(), t.y(), b.y())])
    }
}

impl f32x2 {
    /// The sum of two pairs, each of the two values on its own.
    pub fn add<A: ScalarArithmetic>(self, other: f32x2, arith: &A) -> (r: f32x2)
        ensures
            call_ensures(A::sum, (arith, self.first(), other.first()), r.first()),
            call_ensures(A::sum, (arith, self.second(), other.second()), r.second()),
    {
        f32x2([arith.sum(self.x(), other.x()), arith.sum(self.y(), other.y())])
    }

    /// The difference of two pairs, each of the two values on its own.
    pub fn sub<A: ScalarArithmetic>(self, other: f32x2, arith: &A) -> (r: f32x2)
        ensures
            call_ensures(A::difference, (arith, self.first(), other.first()), r.first()),
            call_ensures(A::difference, (arith, self.second(), other.second()), r.second()),
    {
        f32x2([arith.difference(self.x(), other.x()), arith.difference(self.y(), other.y())])
    }

    /// The product of two pairs, each of the two values on its own.
    pub fn mul<A: ScalarArithmetic>(self, other: f32x2, arith: &A) -> (r: f32x2)
        ensures
            call_ensures(A::product, (arith, self.first(), other.first()), r.first()),
            call_ensures(A::product, (arith, self.second(), other.second()), r.second()),
    {
        f32x2([arith.product(self.x(), other.x()), arith.product(self.y(), other.y())])
    }

    /// The quotient of two pairs, each of the two values on its own.
    pub fn div<A: ScalarArithmetic>(self, other: f32x2, arith: &A) -> (r: f32x2)
        ensures
            call_ensures(A::quotient, (arith, self.first(), other.first()), r.first()),
            call_ensures(A::quotient, (arith, self.second(), other.second()), r.second()),
    {
        f32x2([arith.quotient(self.x(), other.x()), arith.quotient(self.y(), other.y())])
    }
}

impl Default for f32x2 {
    /// The pair of two zeros.
    fn default() -> (r: f32x2)
        ensures
            r.first().bits == 0,
            r.second().bits == 0,
    {
        f32x2([Scalar::zero(), Scalar::zero()])
    }
}

impl PartialEq for f32x2 {
    fn eq(&self, other: &f32x2) -> (r: bool) {
        self.0[0] == other.0[0] && self.0[1] == other.0[1]
    }
}

impl PartialEqSpecImpl for f32x2 {
    open spec fn obeys_eq_spec() -> bool {
        true
    }

    open spec fn eq_spec(&self, other: &f32x2) -> bool {
        self.first().same(other.first()) && self.second().same(other.second())
    }
}

/// Among values that are no NaN, the larger is at least both, the smaller at
/// most both, and each is one of the two.
pub proof fn lemma_larger_and_smaller_bound(a: Scalar, b: Scalar)
    requires
        !a.nan(),
        !b.nan(),
    ensures
        a.at_most(larger(a, b)),
        b.at_most(larger(a, b)),
        smaller(a, b).at_most(a),
        smaller(a, b).at_most(b),
        larger(a, b) == a || larger(a, b) == b,
        smaller(a, b) == a || smaller(a, b) == b,
{
}

/// On a tie, and with a NaN on either side, the second operand is the
/// result: the pair of functions does not hand a NaN on as the functions of
/// the standard do, nor drop it as theirs do.
pub proof fn lemma_tie_or_nan_keeps_second(a: Scalar, b: Scalar)
    requires
        a.nan() || b.nan() || a.same(b),
    ensures
        larger(a, b) == b,
        smaller(a, b) == b,
{
}

} // verus!

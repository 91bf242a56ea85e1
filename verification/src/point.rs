//! Points of the plane.

use vstd::prelude::*;
use vstd::std_specs::cmp::PartialEqSpecImpl;
use crate::arithmetic::PrecisionArithmetic;
use crate::f32x2_t::f32x2;
use crate::scalar::Scalar;

verus! {

/// A point, or a vector, of single-precision coordinates.
#[derive(Clone, Copy, Debug)]
pub struct Point {
    pub x: Scalar,
    pub y: Scalar,
}

impl Point {
    /// Both coordinates are finite.
    pub open spec fn finite(self) -> bool {
        self.x.finite() && self.y.finite()
    }

    /// The two points have equal coordinates. A point with a NaN coordinate
    /// equals no point, itself included.
    pub open spec fn same(self, other: Point) -> bool {
        self.x.same(other.x) && self.y.same(other.y)
    }

    /// The vector has a direction: it is finite and not zero.
    pub open spec fn normalizable(self) -> bool {
        self.finite() && !self.same(Point { x: Scalar { bits: 0 }, y: Scalar { bits: 0 } })
    }

    /// The point with these coordinates.
    pub fn from_xy(x: Scalar, y: Scalar) -> (r: Point)
        ensures
            r.x == x,
            r.y == y,
    {
        Point { x, y }
    }

    /// The origin.
    pub fn zero() -> (r: Point)
        ensures
            r.x.bits == 0,
            r.y.bits == 0,
    {
        Point { x: Scalar::zero(), y: Scalar::zero() }
    }

    /// The point whose coordinates are the two values of the pair.
    pub fn from_f32x2(r: f32x2) -> (p: Point)
        ensures
            p.x == r.first(),
            p.y == r.second(),
    {
        Point::from_xy(r.x(), r.y())
    }

    /// The coordinates as a pair.
    pub fn to_f32x2(&self) -> (r: f32x2)
        ensures
            r.first() == self.x,
            r.second() == self.y,
    {
        f32x2::new(self.x, self.y)
    }

    /// Whether both coordinates are finite.
    pub fn is_finite(&self) -> (r: bool)
        ensures
            r == self.finite(),
    {
        self.x.is_finite() && self.y.is_finite()
    }

    /// Whether the vector has a direction, so that it can be scaled to a
    /// length: whether it is finite and not zero.
    pub fn can_normalize(&self) -> (r: bool)
        ensures
            r == self.normalizable(),
    {
        self.is_finite() && !self.is_zero()
    }

    /// Whether both coordinates are zero, of either sign.
    pub fn is_zero(&self) -> (r: bool)
        ensures
            r == self.same(Point { x: Scalar { bits: 0 }, y: Scalar { bits: 0 } }),
    {
        self.x == Scalar::zero() && self.y == Scalar::zero()
    }
}

impl Default for Point {
    /// The origin.
    fn default() -> (r: Point)
        ensures
            r.x.bits == 0,
            r.y.bits == 0,
    {
        Point { x: Scalar::zero(), y: Scalar::zero() }
    }
}

impl PartialEq for Point {
    fn eq(&self, other: &Point) -> (r: bool) {
        self.x == other.x && self.y == other.y
    }
}

impl PartialEqSpecImpl for Point {
    open spec fn obeys_eq_spec() -> bool {
        true
    }

    open spec fn eq_spec(&self, other: &Point) -> bool {
        self.same(*other)
    }
}

/// An IEEE-754 binary64 value, held as its bit pattern.
#[derive(Clone, Copy, Debug)]
pub struct Double {
    pub bits: u64,
}

/// The sign bit of a binary64 pattern.
pub const DOUBLE_SIGN_BIT: u64 = 0x8000_0000_0000_0000;

/// The binary64 pattern of positive infinity: every exponent bit set, no
/// fraction bit.
pub const DOUBLE_INFINITY_BITS: u64 = 0x7ff0_0000_0000_0000;

impl Double {
    /// The pattern without its sign bit.
    pub open spec fn magnitude(self) -> int {
        if self.bits >= DOUBLE_SIGN_BIT {
            self.bits - DOUBLE_SIGN_BIT
        } else {
            self.bits as int
        }
    }

    /// The value is a NaN: its magnitude lies above that of infinity.
    pub open spec fn nan(self) -> bool {
        self.magnitude() > DOUBLE_INFINITY_BITS
    }

    /// `self == other` as the standard defines it: a NaN equals nothing, the
    /// two zeros are equal, and any other two values are equal where their
    /// patterns are.
    pub open spec fn same(self, other: Double) -> bool {
        &&& !self.nan()
        &&& !other.nan()
        &&& self.bits == other.bits || (self.magnitude() == 0 && other.magnitude() == 0)
    }

    /// The pattern without its sign bit, computed.
    fn magnitude_bits(&self) -> (r: u64)
        ensures
            r == self.magnitude(),
    {
        if self.bits >= DOUBLE_SIGN_BIT {
            self.bits - DOUBLE_SIGN_BIT
        } else {
            self.bits
        }
    }

    /// Whether the value is a NaN.
    pub fn is_nan(&self) -> (r: bool)
        ensures
            r == self.nan(),
    {
        self.magnitude_bits() > DOUBLE_INFINITY_BITS
    }

    /// The value with this bit pattern.
    pub fn from_bits(bits: u64) -> (r: Double)
        ensures
            r.bits == bits,
    {
        Double { bits }
    }

    /// The bit pattern of the value.
    pub fn to_bits(&self) -> (r: u64)
        ensures
            r == self.bits,
    {
        self.bits
    }
}

impl Default for Double {
    /// Positive zero.
    fn default() -> (r: Double)
        ensures
            r.bits == 0,
    {
        Double { bits: 0 }
    }
}

impl PartialEq for Double {
    fn eq(&self, other: &Double) -> (r: bool) {
        let a = self.magnitude_bits();
        let b = other.magnitude_bits();
        a <= DOUBLE_INFINITY_BITS && b <= DOUBLE_INFINITY_BITS && (self.bits == other.bits || (a
            == 0 && b == 0))
    }
}

impl PartialEqSpecImpl for Double {
    open spec fn obeys_eq_spec() -> bool {
        true
    }

    open spec fn eq_spec(&self, other: &Double) -> bool {
        self.same(*other)
    }
}

/// The axis along which a sweep looks for intersections.
#[derive(Copy, Clone, PartialEq, Eq, Structural, Debug)]
pub enum SearchAxis {
    X,
    Y,
}

/// A point of double-precision coordinates.
#[derive(Copy, Clone, Debug)]
pub struct Point64 {
    pub x: Double,
    pub y: Double,
}

impl Point64 {
    /// The two points have equal coordinates. A point with a NaN coordinate
    /// equals no point, itself included.
    pub open spec fn same(self, other: Point64) -> bool {
        self.x.same(other.x) && self.y.same(other.y)
    }

    /// The coordinate along `axis`.
    pub open spec fn coord(self, axis: SearchAxis) -> Double {
        match axis {
            SearchAxis::X => self.x,
            SearchAxis::Y => self.y,
        }
    }

    /// The point with these coordinates.
    pub fn from_xy(x: Double, y: Double) -> (r: Point64)
        ensures
            r.x == x,
            r.y == y,
    {
        Point64 { x, y }
    }

    /// The point with the coordinates of `p`, each widened on its own.
    pub fn from_point<A: PrecisionArithmetic>(p: Point, arith: &A) -> (r: Point64)
        ensures
            call_ensures(A::widen, (arith, p.x), r.x),
            call_ensures(A::widen, (arith, p.y), r.y),
    {
        Point64 { x: arith.widen(p.x), y: arith.widen(p.y) }
    }

    /// The point with the coordinates of this one, each narrowed on its own.
    pub fn to_point<A: PrecisionArithmetic>(&self, arith: &A) -> (r: Point)
        ensures
            call_ensures(A::narrow, (arith, self.x), r.x),
            call_ensures(A::narrow, (arith, self.y), r.y),
    {
        Point::from_xy(arith.narrow(self.x), arith.narrow(self.y))
    }

    /// The origin.
    pub fn zero() -> (r: Point64)
        ensures
            r.x.bits == 0,
            r.y.bits == 0,
    {
        Point64 { x: Double { bits: 0 }, y: Double { bits: 0 } }
    }

    /// The coordinate along `axis`.
    pub fn axis_coord(&self, axis: SearchAxis) -> (r: Double)
        ensures
            r == self.coord(axis),
    {
        match axis {
            SearchAxis::X => self.x,
            SearchAxis::Y => self.y,
        }
    }
}

impl Default for Point64 {
    /// The origin.
    fn default() -> (r: Point64)
        ensures
            r.x.bits == 0,
            r.y.bits == 0,
    {
        Point64::zero()
    }
}

impl PartialEq for Point64 {
    fn eq(&self, other: &Point64) -> (r: bool) {
        self.x == other.x && self.y == other.y
    }
}

impl PartialEqSpecImpl for Point64 {
    open spec fn obeys_eq_spec() -> bool {
        true
    }

    open spec fn eq_spec(&self, other: &Point64) -> bool {
        self.same(*other)
    }
}

} // verus!

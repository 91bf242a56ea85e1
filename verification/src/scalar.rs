//! Single-precision values carried as bit patterns.
//!
//! Every number this crate handles is an IEEE-754 binary32 value. The crate
//! itself never rounds: it compares, negates, selects and classifies. All of
//! that is decided by the bit pattern alone, so a value is held as its 32
//! bits and the comparison rules of the standard are stated over integers.

use vstd::prelude::*;
use vstd::std_specs::cmp::PartialEqSpecImpl;

verus! {

/// The sign bit of a binary32 pattern.
pub const SIGN_BIT: u32 = 0x8000_0000;

/// The pattern of positive infinity: every exponent bit set, no fraction bit.
pub const INFINITY_BITS: u32 = 0x7f80_0000;

/// The pattern of `1.0`.
pub const ONE_BITS: u32 = 0x3f80_0000;

/// The pattern of `0.5`.
pub const HALF_BITS: u32 = 0x3f00_0000;

/// The pattern of `0.25`.
pub const QUARTER_BITS: u32 = 0x3e80_0000;

/// The pattern of `-1.0`.
pub const MINUS_ONE_BITS: u32 = 0xbf80_0000;

/// The pattern of the machine epsilon, `2^-23`.
pub const EPSILON_BITS: u32 = 0x3400_0000;

/// The pattern of `1.0 - 2^-23`.
pub const ONE_MINUS_EPSILON_BITS: u32 = 0x3f7f_fffe;

/// The pattern of `2^-12`, the tolerance under which a value counts as zero.
pub const NEARLY_ZERO_BITS: u32 = 0x3980_0000;

/// The pattern of `2^-36`, the cube of the nearly-zero tolerance.
pub const NEARLY_ZERO_CUBED_BITS: u32 = 0x2d80_0000;

/// The pattern of the square root of two, halved.
pub const ROOT_2_OVER_2_BITS: u32 = 0x3f35_04f3;

/// An IEEE-754 binary32 value, held as its bit pattern.
#[derive(Clone, Copy, Debug)]
pub struct Scalar {
    pub bits: u32,
}

impl Scalar {
    /// The pattern without its sign bit.
    pub open spec fn magnitude(self) -> int {
        if self.bits >= SIGN_BIT {
            self.bits - SIGN_BIT
        } else {
            self.bits as int
        }
    }

    /// The sign bit is set. This holds of `-0.0` and of negative NaNs too.
    pub open spec fn sign_negative(self) -> bool {
        self.bits >= SIGN_BIT
    }

    /// The value is a NaN: its magnitude lies above that of infinity.
    pub open spec fn nan(self) -> bool {
        self.magnitude() > INFINITY_BITS
    }

    /// The value is neither infinite nor a NaN.
    pub open spec fn finite(self) -> bool {
        self.magnitude() < INFINITY_BITS
    }

    /// The place of the value on the number line, as an integer.
    ///
    /// Among values that are no NaN, a larger key is a larger number and equal
    /// keys are equal numbers; both zeros have key 0.
    pub open spec fn key(self) -> int {
        if self.sign_negative() {
            -self.magnitude()
        } else {
            self.magnitude()
        }
    }

    /// The value with its sign bit cleared.
    pub open spec fn absolute(self) -> Scalar {
        Scalar { bits: self.magnitude() as u32 }
    }

    /// The value with its sign bit flipped.
    pub open spec fn negated(self) -> Scalar {
        if self.bits >= SIGN_BIT {
            Scalar { bits: (self.bits - SIGN_BIT) as u32 }
        } else {
            Scalar { bits: (self.bits + SIGN_BIT) as u32 }
        }
    }

    /// `self < other` as the standard defines it: false when either is a NaN.
    pub open spec fn less(self, other: Scalar) -> bool {
        !self.nan() && !other.nan() && self.key() < other.key()
    }

    /// `self == other` as the standard defines it: a NaN equals nothing, and
    /// the two zeros are equal.
    pub open spec fn same(self, other: Scalar) -> bool {
        !self.nan() && !other.nan() && self.key() == other.key()
    }

    /// `self <= other` as the standard defines it.
    pub open spec fn at_most(self, other: Scalar) -> bool {
        !self.nan() && !other.nan() && self.key() <= other.key()
    }

    /// The value with this bit pattern.
    pub fn from_bits(bits: u32) -> (r: Scalar)
        ensures
            r.bits == bits,
    {
        Scalar { bits }
    }

    /// The bit pattern of the value.
    pub fn to_bits(&self) -> (r: u32)
        ensures
            r == self.bits,
    {
        self.bits
    }

    /// Positive zero.
    pub fn zero() -> (r: Scalar)
        ensures
            r.bits == 0,
    {
        Scalar { bits: 0 }
    }

    /// The number one.
    pub fn one() -> (r: Scalar)
        ensures
            r.bits == ONE_BITS,
    {
        Scalar { bits: ONE_BITS }
    }

    /// The pattern without its sign bit, computed.
    fn magnitude_bits(&self) -> (r: u32)
        ensures
            r == self.magnitude(),
    {
        if self.bits >= SIGN_BIT {
            self.bits - SIGN_BIT
        } else {
            self.bits
        }
    }

    /// The key of the value, computed.
    pub fn order_key(&self) -> (r: i64)
        ensures
            r == self.key(),
    {
        let magnitude: i64 = self.magnitude_bits() as i64;
        if self.bits >= SIGN_BIT {
            -magnitude
        } else {
            magnitude
        }
    }

    /// Whether the value is a NaN.
    pub fn is_nan(&self) -> (r: bool)
        ensures
            r == self.nan(),
    {
        self.magnitude_bits() > INFINITY_BITS
    }

    /// Whether the value is neither infinite nor a NaN.
    pub fn is_finite(&self) -> (r: bool)
        ensures
            r == self.finite(),
    {
        self.magnitude_bits() < INFINITY_BITS
    }

    /// Whether the sign bit is set.
    pub fn is_sign_negative(&self) -> (r: bool)
        ensures
            r == self.sign_negative(),
    {
        self.bits >= SIGN_BIT
    }

    /// The value with its sign bit flipped. A NaN stays a NaN.
    pub fn neg(self) -> (r: Scalar)
        ensures
            r == self.negated(),
    {
        if self.bits >= SIGN_BIT {
            Scalar { bits: self.bits - SIGN_BIT }
        } else {
            Scalar { bits: self.bits + SIGN_BIT }
        }
    }

    /// The value with its sign bit cleared. A NaN stays a NaN.
    pub fn abs(self) -> (r: Scalar)
        ensures
            r == self.absolute(),
    {
        Scalar { bits: self.magnitude_bits() }
    }

    /// `self < other`.
    pub fn lt(&self, other: &Scalar) -> (r: bool)
        ensures
            r == self.less(*other),
    {
        !self.is_nan() && !other.is_nan() && self.order_key() < other.order_key()
    }

    /// `self <= other`.
    pub fn le(&self, other: &Scalar) -> (r: bool)
        ensures
            r == self.at_most(*other),
    {
        !self.is_nan() && !other.is_nan() && self.order_key() <= other.order_key()
    }

    /// `self > other`.
    pub fn gt(&self, other: &Scalar) -> (r: bool)
        ensures
            r == other.less(*self),
    {
        other.lt(self)
    }

    /// `self >= other`.
    pub fn ge(&self, other: &Scalar) -> (r: bool)
        ensures
            r == other.at_most(*self),
    {
        other.le(self)
    }

    /// Whether the value is within the nearly-zero tolerance, `2^-12`, of zero.
    pub fn is_nearly_zero(&self) -> (r: bool)
        ensures
            r == self.absolute().at_most(Scalar { bits: NEARLY_ZERO_BITS }),
    {
        self.is_nearly_zero_within_tolerance(Scalar { bits: NEARLY_ZERO_BITS })
    }

    /// Whether the absolute value is at most `tolerance`.
    pub fn is_nearly_zero_within_tolerance(&self, tolerance: Scalar) -> (r: bool)
        ensures
            r == self.absolute().at_most(tolerance),
    {
        self.abs().le(&tolerance)
    }
}

impl Default for Scalar {
    /// Positive zero.
    fn default() -> (r: Scalar)
        ensures
            r.bits == 0,
    {
        Scalar { bits: 0 }
    }
}

impl PartialEq for Scalar {
    fn eq(&self, other: &Scalar) -> (r: bool) {
        !self.is_nan() && !other.is_nan() && self.order_key() == other.order_key()
    }
}

impl PartialEqSpecImpl for Scalar {
    open spec fn obeys_eq_spec() -> bool {
        true
    }

    open spec fn eq_spec(&self, other: &Scalar) -> bool {
        self.same(*other)
    }
}

/// Among values that are no NaN, exactly one of less, equal and greater holds.
pub proof fn lemma_trichotomy(a: Scalar, b: Scalar)
    requires
        !a.nan(),
        !b.nan(),
    ensures
        a.less(b) || a.same(b) || b.less(a),
        !(a.less(b) && a.same(b)),
        !(a.less(b) && b.less(a)),
        !(a.same(b) && b.less(a)),
{
}

/// The order is transitive, and equality can stand on either side of it.
pub proof fn lemma_order_transitive(a: Scalar, b: Scalar, c: Scalar)
    ensures
        a.less(b) && b.less(c) ==> a.less(c),
        a.at_most(b) && b.at_most(c) ==> a.at_most(c),
        a.same(b) && b.same(c) ==> a.same(c),
        a.same(b) && b.less(c) ==> a.less(c),
        a.less(b) && b.same(c) ==> a.less(c),
{
}

/// A NaN compares false with everything, itself included.
pub proof fn lemma_nan_is_unordered(a: Scalar, b: Scalar)
    requires
        a.nan(),
    ensures
        !a.less(b),
        !b.less(a),
        !a.same(b),
        !a.same(a),
        !a.at_most(b),
        !b.at_most(a),
{
}

/// The two zeros are equal, and neither is less than the other.
pub proof fn lemma_zeros_are_equal()
    ensures
        (Scalar { bits: 0 }).same(Scalar { bits: SIGN_BIT }),
        !(Scalar { bits: SIGN_BIT }).less(Scalar { bits: 0 }),
        !(Scalar { bits: 0 }).less(Scalar { bits: SIGN_BIT }),
{
}

/// Negation flips the sign, keeps the magnitude, and so mirrors the key; a
/// NaN stays a NaN, and negating twice gives the value back.
pub proof fn lemma_negated(a: Scalar)
    ensures
        a.negated().magnitude() == a.magnitude(),
        a.negated().sign_negative() == !a.sign_negative(),
        a.negated().key() == -a.key(),
        a.negated().nan() == a.nan(),
        a.negated().finite() == a.finite(),
        a.negated().negated() == a,
{
}

/// Negation reverses the order and keeps equality.
pub proof fn lemma_negation_reverses_order(a: Scalar, b: Scalar)
    ensures
        a.less(b) <==> b.negated().less(a.negated()),
        a.at_most(b) <==> b.negated().at_most(a.negated()),
        a.same(b) <==> a.negated().same(b.negated()),
{
}

/// The absolute value has a clear sign bit and a key that is never negative;
/// it is the value itself or its negation.
pub proof fn lemma_absolute(a: Scalar)
    ensures
        !a.absolute().sign_negative(),
        a.absolute().key() >= 0,
        a.absolute().key() == if a.key() < 0 { -a.key() } else { a.key() },
        a.absolute().nan() == a.nan(),
        a.absolute().finite() == a.finite(),
        a.absolute() == a || a.absolute() == a.negated(),
{
}

} // verus!

//! Curve parameters: values held to the unit interval by their type.

use vstd::prelude::*;
use vstd::std_specs::cmp::PartialEqSpecImpl;
use crate::scalar::Scalar;
use crate::scalar::EPSILON_BITS;
use crate::scalar::HALF_BITS;
use crate::scalar::ONE_BITS;
use crate::scalar::ONE_MINUS_EPSILON_BITS;

verus! {

/// The value lies in `[0, 1]`. A zero of either sign does; a NaN does not.
pub open spec fn in_unit_closed(s: Scalar) -> bool {
    !s.nan() && 0 <= s.key() <= ONE_BITS
}

/// The value lies in `(0, 1)`.
pub open spec fn in_unit_open(s: Scalar) -> bool {
    !s.nan() && 0 < s.key() < ONE_BITS
}

/// The value of `[0, 1]` nearest to `s`; positive zero where `s` is not
/// finite, and where it is a zero of either sign.
pub open spec fn clamped_to_unit(s: Scalar) -> Scalar {
    if !s.finite() || s.key() <= 0 {
        Scalar { bits: 0 }
    } else if s.key() >= ONE_BITS {
        Scalar { bits: ONE_BITS }
    } else {
        s
    }
}

/// The value of `[epsilon, 1 - epsilon]` nearest to `s`, with `epsilon` the
/// machine epsilon; the upper end where `s` is a NaN.
pub open spec fn bounded_to_unit(s: Scalar) -> Scalar {
    if s.nan() || s.key() >= ONE_MINUS_EPSILON_BITS {
        Scalar { bits: ONE_MINUS_EPSILON_BITS }
    } else if s.key() <= EPSILON_BITS {
        Scalar { bits: EPSILON_BITS }
    } else {
        s
    }
}

/// A value in `[0, 1]`.
#[derive(Clone, Copy, Debug)]
pub struct NormalizedF32 {
    value: Scalar,
}

impl View for NormalizedF32 {
    type V = Scalar;

    closed spec fn view(&self) -> Scalar {
        self.value
    }
}

impl NormalizedF32 {
    /// Every value of the type lies in `[0, 1]`.
    #[verifier::type_invariant]
    pub open spec fn within_range(self) -> bool {
        in_unit_closed(self@)
    }

    /// Zero.
    pub fn zero() -> (r: NormalizedF32)
        ensures
            r@.bits == 0,
    {
        NormalizedF32 { value: Scalar { bits: 0 } }
    }

    /// One.
    pub fn one() -> (r: NormalizedF32)
        ensures
            r@.bits == ONE_BITS,
    {
        NormalizedF32 { value: Scalar { bits: ONE_BITS } }
    }

    /// The value, if it lies in `[0, 1]`.
    pub fn new(n: Scalar) -> (r: Option<NormalizedF32>)
        ensures
            r is Some <==> in_unit_closed(n),
            r is Some ==> r.unwrap()@ == n,
    {
        if !n.is_nan() && 0 <= n.order_key() && n.order_key() <= 0x3f80_0000i64 {
            Some(NormalizedF32 { value: n })
        } else {
            None
        }
    }

    /// The value of `[0, 1]` nearest to `n`; zero where `n` is not finite.
    pub fn new_clamped(n: Scalar) -> (r: NormalizedF32)
        ensures
            r@ == clamped_to_unit(n),
    {
        if !n.is_finite() || n.order_key() <= 0 {
            NormalizedF32 { value: Scalar { bits: 0 } }
        } else if n.order_key() >= 0x3f80_0000i64 {
            NormalizedF32 { value: Scalar { bits: ONE_BITS } }
        } else {
            NormalizedF32 { value: n }
        }
    }

    /// The value held.
    pub fn get(&self) -> (r: Scalar)
        ensures
            r == self@,
            in_unit_closed(r),
    {
        proof {
            use_type_invariant(self);
        }
        self.value
    }
}

impl PartialEq for NormalizedF32 {
    fn eq(&self, other: &NormalizedF32) -> (r: bool) {
        self.value == other.value
    }
}

impl PartialEqSpecImpl for NormalizedF32 {
    open spec fn obeys_eq_spec() -> bool {
        true
    }

    open spec fn eq_spec(&self, other: &NormalizedF32) -> bool {
        self@.same(other@)
    }
}

/// A value in `(0, 1)`.
#[derive(Clone, Copy, Debug)]
pub struct NormalizedF32Exclusive {
    value: Scalar,
}

impl View for NormalizedF32Exclusive {
    type V = Scalar;

    closed spec fn view(&self) -> Scalar {
        self.value
    }
}

impl NormalizedF32Exclusive {
    /// Every value of the type lies in `(0, 1)`.
    #[verifier::type_invariant]
    pub open spec fn within_range(self) -> bool {
        in_unit_open(self@)
    }

    /// One half: a value to fill a buffer with before any is computed.
    pub fn any() -> (r: NormalizedF32Exclusive)
        ensures
            r@.bits == HALF_BITS,
    {
        NormalizedF32Exclusive { value: Scalar { bits: HALF_BITS } }
    }

    /// One half.
    pub fn half() -> (r: NormalizedF32Exclusive)
        ensures
            r@.bits == HALF_BITS,
    {
        NormalizedF32Exclusive { value: Scalar { bits: HALF_BITS } }
    }

    /// The value, if it lies in `(0, 1)`.
    pub fn new(n: Scalar) -> (r: Option<NormalizedF32Exclusive>)
        ensures
            r is Some <==> in_unit_open(n),
            r is Some ==> r.unwrap()@ == n,
    {
        if !n.is_nan() && 0 < n.order_key() && n.order_key() < 0x3f80_0000i64 {
            Some(NormalizedF32Exclusive { value: n })
        } else {
            None
        }
    }

    /// The value of `[epsilon, 1 - epsilon]` nearest to `n`; the upper end
    /// where `n` is a NaN.
    pub fn new_bounded(n: Scalar) -> (r: NormalizedF32Exclusive)
        ensures
            r@ == bounded_to_unit(n),
    {
        if n.is_nan() || n.order_key() >= 0x3f7f_fffei64 {
            NormalizedF32Exclusive { value: Scalar { bits: ONE_MINUS_EPSILON_BITS } }
        } else if n.order_key() <= 0x3400_0000i64 {
            NormalizedF32Exclusive { value: Scalar { bits: EPSILON_BITS } }
        } else {
            NormalizedF32Exclusive { value: n }
        }
    }

    /// The value held.
    pub fn get(&self) -> (r: Scalar)
        ensures
            r == self@,
            in_unit_open(r),
    {
        proof {
            use_type_invariant(self);
        }
        self.value
    }

    /// The same value, as one of the closed interval.
    pub fn to_normalized(&self) -> (r: NormalizedF32)
        ensures
            r@ == self@,
    {
        proof {
            use_type_invariant(self);
        }
        NormalizedF32 { value: self.value }
    }
}

impl PartialEq for NormalizedF32Exclusive {
    fn eq(&self, other: &NormalizedF32Exclusive) -> (r: bool) {
        self.value == other.value
    }
}

impl PartialEqSpecImpl for NormalizedF32Exclusive {
    open spec fn obeys_eq_spec() -> bool {
        true
    }

    open spec fn eq_spec(&self, other: &NormalizedF32Exclusive) -> bool {
        self@.same(other@)
    }
}

/// Clamping leaves a value of `[0, 1]` as it is, up to the sign of zero, and
/// always lands in `[0, 1]`.
pub proof fn lemma_clamped_to_unit(s: Scalar)
    ensures
        in_unit_closed(clamped_to_unit(s)),
        in_unit_closed(s) ==> clamped_to_unit(s).same(s),
        in_unit_open(s) ==> clamped_to_unit(s) == s,
{
}

/// Bounding leaves a value of `[epsilon, 1 - epsilon]` as it is and always
/// lands in `(0, 1)`.
pub proof fn lemma_bounded_to_unit(s: Scalar)
    ensures
        in_unit_open(bounded_to_unit(s)),
        !s.nan() && EPSILON_BITS <= s.key() <= ONE_MINUS_EPSILON_BITS ==> bounded_to_unit(s) == s,
{
}

} // verus!

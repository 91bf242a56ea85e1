//! The numbers behind the bit patterns.
//!
//! A finite binary32 value is a whole multiple of `2^-149`, the smallest
//! value above zero that the format holds. This module names that multiple
//! and proves that the order on keys is the order on the numbers, and that
//! each constant of the crate is the number its name says.

use vstd::prelude::*;
use vstd::arithmetic::mul::lemma_mul_inequality;
use vstd::arithmetic::mul::lemma_mul_strict_inequality;
use vstd::arithmetic::power2::lemma2_to64;
use vstd::arithmetic::power2::lemma2_to64_rest;
use vstd::arithmetic::power2::lemma_pow2_adds;
use vstd::arithmetic::power2::lemma_pow2_pos;
use vstd::arithmetic::power2::lemma_pow2_strictly_increases;
use vstd::arithmetic::power2::lemma_pow2_unfold;
use vstd::arithmetic::power2::pow2;
use crate::normalized::in_unit_closed;
use crate::normalized::clamped_to_unit;
use crate::normalized::in_unit_open;
use crate::path_geometry::unit_operands;
use crate::scalar::Scalar;
use crate::scalar::EPSILON_BITS;
use crate::scalar::HALF_BITS;
use crate::scalar::MINUS_ONE_BITS;
use crate::scalar::NEARLY_ZERO_BITS;
use crate::scalar::NEARLY_ZERO_CUBED_BITS;
use crate::scalar::ONE_BITS;
use crate::scalar::ONE_MINUS_EPSILON_BITS;
use crate::scalar::ROOT_2_OVER_2_BITS;

verus! {

/// The number of values that the 23 fraction bits take: `2^23`.
pub open spec fn fraction_range() -> int {
    0x80_0000
}

/// The exponent field of a magnitude: the eight bits above the fraction.
pub open spec fn exponent_field(magnitude: int) -> int {
    magnitude / fraction_range()
}

/// The fraction field of a magnitude: its low 23 bits.
pub open spec fn fraction_field(magnitude: int) -> int {
    magnitude % fraction_range()
}

/// The number that a magnitude stands for, in units of `2^-149`.
///
/// With the exponent field zero the fraction counts the units. Otherwise
/// the fraction has an implied leading one, and each step of the exponent
/// doubles.
pub open spec fn magnitude_value(magnitude: int) -> int {
    if exponent_field(magnitude) == 0 {
        fraction_field(magnitude)
    } else {
        (fraction_range() + fraction_field(magnitude)) * pow2(
            (exponent_field(magnitude) - 1) as nat,
        )
    }
}

impl Scalar {
    /// The number that a finite value stands for, in units of `2^-149`.
    pub open spec fn scaled_value(self) -> int {
        if self.sign_negative() {
            -magnitude_value(self.magnitude())
        } else {
            magnitude_value(self.magnitude())
        }
    }
}

/// A magnitude whose exponent field is not zero stands for at least
/// `2^23` units times the power of its exponent, and for less than twice
/// that.
proof fn lemma_magnitude_value_bounds(magnitude: int)
    requires
        0 <= magnitude,
        exponent_field(magnitude) >= 1,
    ensures
        fraction_range() * pow2((exponent_field(magnitude) - 1) as nat) <= magnitude_value(magnitude),
        magnitude_value(magnitude) < fraction_range() * pow2(exponent_field(magnitude) as nat),
{
    let e = exponent_field(magnitude);
    let f = fraction_field(magnitude);
    let p = pow2((e - 1) as nat) as int;
    lemma_pow2_pos((e - 1) as nat);
    lemma_pow2_unfold(e as nat);
    lemma_mul_inequality(fraction_range(), fraction_range() + f, p);
    lemma_mul_strict_inequality(fraction_range() + f, 2 * fraction_range(), p);
    assert((2 * fraction_range()) * p == fraction_range() * (2 * p)) by (nonlinear_arith);
}

/// The larger magnitude stands for the larger number.
pub proof fn lemma_magnitude_value_increases(smaller: int, larger: int)
    requires
        0 <= smaller < larger,
    ensures
        0 <= magnitude_value(smaller) < magnitude_value(larger),
{
    let e1 = exponent_field(smaller);
    let f1 = fraction_field(smaller);
    let e2 = exponent_field(larger);
    let f2 = fraction_field(larger);
    assert(smaller == e1 * fraction_range() + f1);
    assert(larger == e2 * fraction_range() + f2);
    assert(e1 <= e2);
    if e1 >= 1 {
        lemma_pow2_pos((e1 - 1) as nat);
        assert(0 <= (fraction_range() + f1) * pow2((e1 - 1) as nat)) by (nonlinear_arith)
            requires
                0 <= f1,
                0 < pow2((e1 - 1) as nat),
        ;
    }
    if e1 == e2 {
        if e1 >= 1 {
            lemma_mul_strict_inequality(
                fraction_range() + f1,
                fraction_range() + f2,
                pow2((e1 - 1) as nat) as int,
            );
        }
    } else {
        lemma_magnitude_value_bounds(larger);
        if e1 >= 1 {
            lemma_magnitude_value_bounds(smaller);
        } else {
            assert(pow2(0) == 1) by {
                lemma2_to64();
            }
        }
        if e1 < e2 - 1 {
            lemma_pow2_strictly_increases(e1 as nat, (e2 - 1) as nat);
        }
        assert(fraction_range() * pow2(e1 as nat) <= fraction_range() * pow2((e2 - 1) as nat))
            by (nonlinear_arith)
            requires
                pow2(e1 as nat) <= pow2((e2 - 1) as nat),
        ;
    }
}

/// Among finite values the order on keys is the order on the numbers: one
/// value is less than another exactly where it stands for a smaller number,
/// and two are equal exactly where they stand for the same number.
pub proof fn lemma_order_is_that_of_the_numbers(a: Scalar, b: Scalar)
    requires
        a.finite(),
        b.finite(),
    ensures
        a.less(b) <==> a.scaled_value() < b.scaled_value(),
        a.same(b) <==> a.scaled_value() == b.scaled_value(),
        a.at_most(b) <==> a.scaled_value() <= b.scaled_value(),
{
    lemma_sign_of_the_number(a);
    lemma_sign_of_the_number(b);
    if a.magnitude() < b.magnitude() {
        lemma_magnitude_value_increases(a.magnitude(), b.magnitude());
    } else if b.magnitude() < a.magnitude() {
        lemma_magnitude_value_increases(b.magnitude(), a.magnitude());
    }
}

/// The number has the sign of the key, and is zero exactly for the two
/// zeros.
pub proof fn lemma_sign_of_the_number(a: Scalar)
    ensures
        a.key() > 0 <==> a.scaled_value() > 0,
        a.key() < 0 <==> a.scaled_value() < 0,
        a.key() == 0 <==> a.scaled_value() == 0,
{
    assert(magnitude_value(0) == 0);
    if a.magnitude() > 0 {
        lemma_magnitude_value_increases(0, a.magnitude());
    }
}

/// Negation gives the opposite number, and the absolute value the absolute
/// number.
pub proof fn lemma_number_of_negated_and_absolute(a: Scalar)
    ensures
        a.negated().scaled_value() == -a.scaled_value(),
        a.absolute().scaled_value() == if a.scaled_value() < 0 {
            -a.scaled_value()
        } else {
            a.scaled_value()
        },
{
    lemma_sign_of_the_number(a);
    lemma_sign_of_the_number(a.absolute());
}

/// The constants are the numbers their names say: one is `2^149` units of
/// `2^-149`, one half `2^148`, the machine epsilon `2^126`, which is
/// `2^-23`, and so on.
pub proof fn lemma_numbers_of_the_constants()
    ensures
        (Scalar { bits: 0 }).scaled_value() == 0,
        (Scalar { bits: ONE_BITS }).scaled_value() == pow2(149),
        (Scalar { bits: MINUS_ONE_BITS }).scaled_value() == -pow2(149),
        (Scalar { bits: HALF_BITS }).scaled_value() == pow2(148),
        (Scalar { bits: EPSILON_BITS }).scaled_value() == pow2(126),
        (Scalar { bits: ONE_MINUS_EPSILON_BITS }).scaled_value() == pow2(149) - pow2(126),
        (Scalar { bits: NEARLY_ZERO_BITS }).scaled_value() == pow2(137),
        (Scalar { bits: NEARLY_ZERO_CUBED_BITS }).scaled_value() == pow2(113),
        pow2(137) * pow2(137) * pow2(137) == pow2(113) * pow2(149) * pow2(149),
{
    lemma2_to64();
    assert(pow2(23) == fraction_range());
    lemma_pow2_adds(23, 126);
    lemma_pow2_adds(23, 125);
    lemma_pow2_adds(23, 103);
    lemma_pow2_adds(23, 114);
    lemma_pow2_adds(23, 90);
    lemma_pow2_unfold(126);
    lemma_pow2_unfold(149);
    assert(exponent_field(ONE_BITS as int) == 127 && fraction_field(ONE_BITS as int) == 0);
    assert(exponent_field(HALF_BITS as int) == 126 && fraction_field(HALF_BITS as int) == 0);
    assert(exponent_field(EPSILON_BITS as int) == 104 && fraction_field(EPSILON_BITS as int) == 0);
    assert(exponent_field(ONE_MINUS_EPSILON_BITS as int) == 126 && fraction_field(
        ONE_MINUS_EPSILON_BITS as int,
    ) == fraction_range() - 2);
    assert(exponent_field(NEARLY_ZERO_BITS as int) == 115 && fraction_field(
        NEARLY_ZERO_BITS as int,
    ) == 0);
    assert(exponent_field(NEARLY_ZERO_CUBED_BITS as int) == 91 && fraction_field(
        NEARLY_ZERO_CUBED_BITS as int,
    ) == 0);
    assert((Scalar { bits: MINUS_ONE_BITS }).magnitude() == ONE_BITS);
    assert((2 * fraction_range() - 2) * pow2(125) == 2 * (fraction_range() * pow2(125)) - 2 * pow2(125))
        by (nonlinear_arith);
    lemma_pow2_adds(137, 137);
    lemma_pow2_adds(274, 137);
    lemma_pow2_adds(113, 149);
    lemma_pow2_adds(262, 149);
}

/// The halved root of two is the value nearest to the true one: with `m` its
/// 24-bit significand, the value is `m * 2^-24`, and the square root of one
/// half lies less than half a step of the significand away, for
/// `(2m - 1)^2 < 2^49 < (2m + 1)^2`, where `m` is 11863283.
pub proof fn lemma_number_of_root_2_over_2()
    ensures
        (Scalar { bits: ROOT_2_OVER_2_BITS }).scaled_value() == 11863283 * pow2(125),
        23726565 * 23726565 < pow2(49) < 23726567 * 23726567,
{
    lemma2_to64();
    lemma2_to64_rest();
    assert(pow2(49) == 0x2_0000_0000_0000);
    assert(exponent_field(ROOT_2_OVER_2_BITS as int) == 126 && fraction_field(
        ROOT_2_OVER_2_BITS as int,
    ) == 0x35_04f3);
}

/// A finite value lies in the closed unit interval exactly where its number
/// lies between zero and one, and in the open one exactly where its number
/// lies strictly between them.
pub proof fn lemma_unit_interval_is_that_of_the_numbers(s: Scalar)
    requires
        s.finite(),
    ensures
        in_unit_closed(s) <==> 0 <= s.scaled_value() <= pow2(149),
        in_unit_open(s) <==> 0 < s.scaled_value() < pow2(149),
{
    lemma_numbers_of_the_constants();
    lemma_order_is_that_of_the_numbers(s, Scalar { bits: ONE_BITS });
    lemma_order_is_that_of_the_numbers(Scalar { bits: 0 }, s);
}

/// The operands of a division for a root in `(0, 1)` are handed out exactly
/// where the quotient of the numbers lies strictly between zero and one.
/// They are then a positive number below another, and their quotient is that
/// of the numbers they came from.
pub proof fn lemma_unit_operands_are_a_proper_fraction(numer: Scalar, denom: Scalar)
    requires
        numer.finite(),
        denom.finite(),
    ensures
        unit_operands(numer, denom) is Some <==> (0 < numer.scaled_value() < denom.scaled_value()
            || denom.scaled_value() < numer.scaled_value() < 0),
        unit_operands(numer, denom) matches Some((n, d)) ==> {
            &&& 0 < n.scaled_value() < d.scaled_value()
            &&& n.scaled_value() * denom.scaled_value() == d.scaled_value() * numer.scaled_value()
        },
{
    let zero = Scalar { bits: 0 };
    lemma_number_of_negated_and_absolute(numer);
    lemma_number_of_negated_and_absolute(denom);
    lemma_sign_of_the_number(numer);
    lemma_sign_of_the_number(denom);
    lemma_sign_of_the_number(numer.negated());
    lemma_sign_of_the_number(denom.negated());
    lemma_order_is_that_of_the_numbers(numer, denom);
    lemma_order_is_that_of_the_numbers(numer.negated(), denom.negated());
    let a = numer.scaled_value();
    let b = denom.scaled_value();
    assert(a * b == b * a) by (nonlinear_arith);
    assert((-a) * b == (-b) * a) by (nonlinear_arith);
}

/// Holding a finite value to the unit interval gives the number of the
/// interval nearest to its own: zero for a number below zero, one for a number
/// above one, and the number itself between them.
pub proof fn lemma_number_of_clamped(s: Scalar)
    requires
        s.finite(),
    ensures
        clamped_to_unit(s).scaled_value() == if s.scaled_value() < 0 {
            0
        } else if s.scaled_value() > pow2(149) {
            pow2(149) as int
        } else {
            s.scaled_value()
        },
{
    lemma_numbers_of_the_constants();
    lemma_sign_of_the_number(s);
    lemma_order_is_that_of_the_numbers(s, Scalar { bits: ONE_BITS });
}

} // verus!

//! Chances as IEEE 754 binary64 bit patterns.
//!
//! A chance travels through this crate as the 64 bits of a double precision
//! number: one sign bit, eleven exponent bits and fifty-two fraction bits.
//! This module says which number a pattern stands for and decides, on the
//! bits alone, whether that number is a probability.

use vstd::prelude::*;
use vstd::arithmetic::mul::{lemma_mul_inequality, lemma_mul_strict_inequality};
use vstd::arithmetic::power2::{
    lemma2_to64, lemma2_to64_rest, lemma_pow2_adds, lemma_pow2_pos, lemma_pow2_strictly_increases,
    pow2,
};

verus! {

/// The sign bit; on its own it is the pattern of negative zero.
pub const SIGN_MASK: u64 = 0x8000_0000_0000_0000;

/// Two to the fifty-second: one step of the exponent field.
pub const FRACTION_SPAN: u64 = 0x0010_0000_0000_0000;

/// The pattern of positive infinity. Above it, with the sign cleared, lie the NaNs.
pub const INFINITY: u64 = 0x7FF0_0000_0000_0000;

/// The pattern of one.
pub const ONE: u64 = 0x3FF0_0000_0000_0000;

/// The pattern of one half.
pub const HALF: u64 = 0x3FE0_0000_0000_0000;

/// Whether the sign bit is set.
pub open spec fn sign_negative(bits: u64) -> bool {
    bits >= SIGN_MASK
}

/// The pattern with its sign bit cleared.
pub open spec fn unsigned_part(bits: u64) -> u64 {
    (bits % SIGN_MASK) as u64
}

/// The biased exponent field.
pub open spec fn exponent(bits: u64) -> nat {
    ((bits / FRACTION_SPAN) % 2048) as nat
}

/// The fraction field.
pub open spec fn fraction(bits: u64) -> nat {
    (bits % FRACTION_SPAN) as nat
}

/// Whether the pattern stands for a number, infinities left out.
pub open spec fn is_finite(bits: u64) -> bool {
    exponent(bits) < 2047
}

/// Whether the pattern stands for an infinity.
pub open spec fn is_infinite(bits: u64) -> bool {
    exponent(bits) == 2047 && fraction(bits) == 0
}

/// Whether the pattern is a NaN.
pub open spec fn spec_is_nan(bits: u64) -> bool {
    exponent(bits) == 2047 && fraction(bits) != 0
}

/// The absolute value of a finite pattern, counted in units of two to the minus 1074,
/// the smallest positive double. Subnormal patterns have no implicit leading bit.
pub open spec fn magnitude(bits: u64) -> nat
    recommends
        is_finite(bits),
{
    if exponent(bits) == 0 {
        fraction(bits)
    } else {
        (pow2(52) + fraction(bits)) * pow2((exponent(bits) - 1) as nat)
    }
}

/// The magnitude of one.
pub open spec fn unit() -> nat {
    pow2(1074)
}

/// The number is zero, of either sign.
pub open spec fn is_zero(bits: u64) -> bool {
    is_finite(bits) && magnitude(bits) == 0
}

/// The number is one.
pub open spec fn is_one(bits: u64) -> bool {
    !sign_negative(bits) && is_finite(bits) && magnitude(bits) == unit()
}

/// The number is less than zero.
pub open spec fn spec_is_below_zero(bits: u64) -> bool {
    sign_negative(bits) && (is_infinite(bits) || (is_finite(bits) && magnitude(bits) > 0))
}

/// The number is greater than one.
pub open spec fn spec_is_above_one(bits: u64) -> bool {
    !sign_negative(bits) && (is_infinite(bits) || (is_finite(bits) && magnitude(bits) > unit()))
}

/// The pattern stands for a probability: a number, not less than zero and not
/// greater than one. Negative zero is zero and so counts.
pub open spec fn spec_is_chance(bits: u64) -> bool {
    !is_below_zero(bits) && !is_above_one(bits) && !is_nan(bits)
}

/// Two patterns stand for the same number. The two zeros are one number, and
/// a NaN is no number at all.
pub open spec fn spec_is_same_number(a: u64, b: u64) -> bool {
    ||| is_finite(a) && is_finite(b) && magnitude(a) == magnitude(b) && (sign_negative(a)
        == sign_negative(b) || magnitude(a) == 0)
    ||| is_infinite(a) && is_infinite(b) && sign_negative(a) == sign_negative(b)
}

/// A pattern below the sign bit is its exponent field times two to the
/// fifty-second plus its fraction field.
pub proof fn lemma_fields(bits: u64)
    requires
        bits < SIGN_MASK,
    ensures
        bits == exponent(bits) * FRACTION_SPAN + fraction(bits),
        fraction(bits) < FRACTION_SPAN,
        exponent(bits) < 2048,
{
}

/// The magnitude of a finite pattern lies in the binade that its exponent names.
pub proof fn lemma_magnitude_bounds(bits: u64)
    requires
        is_finite(bits),
    ensures
        exponent(bits) == 0 ==> magnitude(bits) < pow2(52),
        exponent(bits) > 0 ==> pow2(exponent(bits) + 51) <= magnitude(bits) < pow2(
            exponent(bits) + 52,
        ),
{
    let e = exponent(bits);
    let significand = (pow2(52) + fraction(bits)) as int;
    lemma2_to64_rest();
    if e > 0 {
        let k = (e - 1) as nat;
        lemma_pow2_pos(k);
        lemma_pow2_adds(52, k);
        lemma_pow2_adds(53, k);
        lemma_mul_inequality(pow2(52) as int, significand, pow2(k) as int);
        lemma_mul_strict_inequality(significand, pow2(53) as int, pow2(k) as int);
    }
}

/// Among finite patterns with the sign cleared, a greater pattern stands for a
/// greater number.
pub proof fn lemma_magnitude_increases(a: u64, b: u64)
    requires
        a < b < INFINITY,
    ensures
        magnitude(a) < magnitude(b),
{
    lemma_fields(a);
    lemma_fields(b);
    lemma_magnitude_bounds(a);
    lemma_magnitude_bounds(b);
    let ea = exponent(a);
    let eb = exponent(b);
    if ea == eb {
        if ea > 0 {
            let k = (ea - 1) as nat;
            lemma_pow2_pos(k);
            lemma_mul_strict_inequality(
                (pow2(52) + fraction(a)) as int,
                (pow2(52) + fraction(b)) as int,
                pow2(k) as int,
            );
        }
    } else if ea + 52 < eb + 51 {
        lemma_pow2_strictly_increases(ea + 52, eb + 51);
    }
}

/// Among finite patterns with the sign cleared, the order of the patterns is
/// the order of the numbers.
pub proof fn lemma_magnitude_order(a: u64, b: u64)
    requires
        a < INFINITY,
        b < INFINITY,
    ensures
        a < b <==> magnitude(a) < magnitude(b),
        a == b <==> magnitude(a) == magnitude(b),
{
    if a < b {
        lemma_magnitude_increases(a, b);
    }
    if b < a {
        lemma_magnitude_increases(b, a);
    }
}

/// The pattern of one stands for one, that of one half for half of it, and
/// both zeros for zero.
pub proof fn lemma_named_magnitudes()
    ensures
        magnitude(ONE) == unit(),
        2 * magnitude(HALF) == unit(),
        magnitude(0) == 0,
        magnitude(SIGN_MASK) == 0,
{
    lemma2_to64_rest();
    assert(exponent(ONE) == 1023 && fraction(ONE) == 0);
    assert(exponent(HALF) == 1022 && fraction(HALF) == 0);
    lemma_pow2_adds(52, 1022);
    lemma_pow2_adds(52, 1021);
    lemma_pow2_adds(1073, 1);
    lemma2_to64();
}

/// Whether the pattern is a NaN.
#[verifier::when_used_as_spec(spec_is_nan)]
pub fn is_nan(bits: u64) -> (nan: bool)
    ensures
        nan == spec_is_nan(bits),
{
    bits % SIGN_MASK > INFINITY
}

/// Whether the number is less than zero.
#[verifier::when_used_as_spec(spec_is_below_zero)]
pub fn is_below_zero(bits: u64) -> (below: bool)
    ensures
        below == spec_is_below_zero(bits),
{
    proof {
        let cleared = unsigned_part(bits);
        assert(exponent(cleared) == exponent(bits) && fraction(cleared) == fraction(bits));
        if cleared < INFINITY {
            lemma_magnitude_order(0, cleared);
        }
    }
    SIGN_MASK < bits && bits % SIGN_MASK <= INFINITY
}

/// Whether the number is greater than one.
#[verifier::when_used_as_spec(spec_is_above_one)]
pub fn is_above_one(bits: u64) -> (above: bool)
    ensures
        above == spec_is_above_one(bits),
{
    proof {
        if bits < INFINITY {
            lemma_magnitude_order(ONE, bits);
            lemma_named_magnitudes();
        }
    }
    ONE < bits && bits <= INFINITY
}

/// Whether the pattern stands for a probability.
#[verifier::when_used_as_spec(spec_is_chance)]
pub fn is_chance(bits: u64) -> (valid: bool)
    ensures
        valid == spec_is_chance(bits),
{
    !(is_below_zero(bits) || is_above_one(bits) || is_nan(bits))
}

/// Whether two patterns stand for the same number.
#[verifier::when_used_as_spec(spec_is_same_number)]
pub fn is_same_number(a: u64, b: u64) -> (same: bool)
    ensures
        same == spec_is_same_number(a, b),
{
    proof {
        let cleared_a = unsigned_part(a);
        let cleared_b = unsigned_part(b);
        assert(exponent(cleared_a) == exponent(a) && fraction(cleared_a) == fraction(a));
        assert(exponent(cleared_b) == exponent(b) && fraction(cleared_b) == fraction(b));
        if cleared_a < INFINITY && cleared_b < INFINITY {
            lemma_magnitude_order(cleared_a, cleared_b);
            lemma_magnitude_order(0, cleared_a);
        }
    }
    !is_nan(a) && !is_nan(b) && (a == b || (a % SIGN_MASK == 0 && b % SIGN_MASK == 0))
}

/// The valid chances are the patterns from zero up to one, and negative zero.
/// One has a single pattern, zero has two.
pub proof fn lemma_chance_patterns(bits: u64)
    ensures
        is_chance(bits) <==> bits <= ONE || bits == SIGN_MASK,
        is_one(bits) <==> bits == ONE,
        is_zero(bits) <==> bits == 0 || bits == SIGN_MASK,
{
    let cleared = unsigned_part(bits);
    assert(exponent(cleared) == exponent(bits) && fraction(cleared) == fraction(bits));
    if cleared < INFINITY {
        lemma_magnitude_order(0, cleared);
        lemma_magnitude_order(ONE, cleared);
        lemma_named_magnitudes();
    }
}

} // verus!

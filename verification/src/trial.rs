//! One weighted coin flip.
//!
//! A trial compares a uniformly drawn sixty-four bit word with the chance
//! scaled to sixty-four bits: it succeeds when the word is below the integer
//! part of the chance times two to the sixty-fourth. A chance of one therefore
//! succeeds on every word, and a chance below two to the minus sixty-fourth
//! on none. This is the rule by which `rand::distributions::Bernoulli` decides
//! on a word of its generator; here it is decided on the bits of the chance.

use crate::binary64::{
    exponent, fraction, is_chance, is_one, is_zero, lemma_chance_patterns, lemma_fields,
    lemma_magnitude_bounds, lemma_magnitude_order, lemma_named_magnitudes, magnitude, unit,
    FRACTION_SPAN, ONE, SIGN_MASK,
};
use rand::RngCore;
use vstd::arithmetic::div_mod::{
    lemma_basic_div, lemma_div_by_multiple, lemma_div_is_ordered,
    lemma_div_multiples_vanish_quotient, lemma_fundamental_div_mod, lemma_mod_bound,
};
use vstd::arithmetic::mul::{
    lemma_mul_inequality, lemma_mul_is_associative, lemma_mul_is_commutative,
    lemma_mul_is_distributive_add_other_way, lemma_mul_strict_inequality,
};
use vstd::arithmetic::power2::{
    lemma2_to64, lemma2_to64_rest, lemma_pow2_adds, lemma_pow2_pos, lemma_pow2_strictly_increases,
    pow2,
};
use vstd::bits::{lemma_u64_shl_is_mul, lemma_u64_shr_is_div};
use vstd::prelude::*;

verus! {

/// The integer part of the chance times two to the sixty-fourth: how many of
/// the two to the sixty-fourth words make a trial succeed.
pub open spec fn threshold(chance: u64) -> nat
    recommends
        is_chance(chance),
{
    magnitude(chance) * pow2(64) / unit()
}

/// Whether a trial with this chance succeeds on this word.
pub open spec fn succeeds(chance: u64, word: u64) -> bool
    recommends
        is_chance(chance),
{
    word < threshold(chance)
}

/// Some word makes a trial with this chance succeed: the least one does.
pub open spec fn can_succeed(chance: u64) -> bool {
    succeeds(chance, 0)
}

/// Some word makes a trial with this chance fail: the greatest one does.
pub open spec fn can_fail(chance: u64) -> bool {
    !succeeds(chance, u64::MAX)
}

/// The magnitude of a normal pattern, scaled by two to the sixty-fourth, is
/// its significand times a power of two.
proof fn lemma_scaled_magnitude(chance: u64)
    requires
        0 < exponent(chance) < 2047,
    ensures
        magnitude(chance) * pow2(64) == (pow2(52) + fraction(chance)) * pow2(exponent(chance) + 63),
{
    let k = (exponent(chance) - 1) as nat;
    let significand = (pow2(52) + fraction(chance)) as int;
    lemma_pow2_adds(k, 64);
    lemma_mul_is_associative(significand, pow2(k) as int, pow2(64) as int);
}

/// The threshold of a chance below one, field by field: nothing up to the
/// exponent 958, the significand shifted right up to 1010, and shifted left
/// from there on.
pub proof fn lemma_threshold_by_exponent(chance: u64)
    requires
        is_chance(chance),
        chance != ONE,
    ensures
        exponent(chance) < 1023,
        exponent(chance) < 959 ==> threshold(chance) == 0,
        959 <= exponent(chance) < 1011 ==> threshold(chance) == (pow2(52) + fraction(chance))
            / pow2((1011 - exponent(chance)) as nat),
        1011 <= exponent(chance) ==> threshold(chance) == (pow2(52) + fraction(chance)) * pow2(
            (exponent(chance) - 1011) as nat,
        ),
{
    let e = exponent(chance);
    let significand = (pow2(52) + fraction(chance)) as int;
    lemma_chance_patterns(chance);
    if chance != SIGN_MASK {
        lemma_fields(chance);
    }
    assert(e < 1023);
    lemma_magnitude_bounds(chance);
    lemma_pow2_pos(1074);
    if e < 959 {
        if e + 52 < 1010 {
            lemma_pow2_strictly_increases(e + 52, 1010);
        }
        lemma_pow2_strictly_increases(52, 1010);
        assert(magnitude(chance) < pow2(1010));
        lemma_pow2_adds(1010, 64);
        lemma_pow2_pos(64);
        lemma_mul_strict_inequality(magnitude(chance) as int, pow2(1010) as int, pow2(64) as int);
        lemma_basic_div((magnitude(chance) * pow2(64)) as int, unit() as int);
    } else if e < 1011 {
        let shift = (1011 - e) as nat;
        lemma_scaled_magnitude(chance);
        lemma_pow2_adds(e + 63, shift);
        lemma_pow2_pos(e + 63);
        lemma_pow2_pos(shift);
        lemma_mul_is_commutative(significand, pow2(e + 63) as int);
        lemma_div_multiples_vanish_quotient(pow2(e + 63) as int, significand, pow2(shift) as int);
    } else {
        let shift = (e - 1011) as nat;
        lemma_scaled_magnitude(chance);
        lemma_pow2_adds(shift, 1074);
        lemma_mul_is_associative(significand, pow2(shift) as int, pow2(1074) as int);
        lemma_div_by_multiple(significand * pow2(shift), pow2(1074) as int);
    }
}

/// The threshold of one is two to the sixty-fourth, above every word, and
/// the threshold of zero is zero.
pub proof fn lemma_sure_thresholds(chance: u64)
    ensures
        is_one(chance) ==> threshold(chance) == pow2(64) > u64::MAX,
        is_zero(chance) ==> threshold(chance) == 0,
{
    lemma_pow2_pos(1074);
    lemma_mul_is_commutative(pow2(1074) as int, pow2(64) as int);
    lemma_div_by_multiple(pow2(64) as int, pow2(1074) as int);
    lemma2_to64();
    assert(0nat * pow2(64) == 0);
}

/// With a chance of one every trial succeeds, whatever the word.
pub proof fn lemma_one_always_succeeds(chance: u64, word: u64)
    requires
        is_one(chance),
    ensures
        succeeds(chance, word),
        !can_fail(chance),
{
    lemma_sure_thresholds(chance);
}

/// With a chance of zero every trial fails, whatever the word.
pub proof fn lemma_zero_never_succeeds(chance: u64, word: u64)
    requires
        is_zero(chance),
    ensures
        !succeeds(chance, word),
        !can_succeed(chance),
{
    lemma_sure_thresholds(chance);
}

/// Of the two to the sixty-fourth words, those below the threshold succeed:
/// a share of them that differs from the chance by less than two to the
/// minus sixty-fourth.
pub proof fn lemma_share_of_words(chance: u64)
    requires
        is_chance(chance),
    ensures
        threshold(chance) <= pow2(64),
        threshold(chance) * unit() <= magnitude(chance) * pow2(64) < (threshold(chance) + 1)
            * unit(),
{
    let scaled = (magnitude(chance) * pow2(64)) as int;
    let whole = unit() as int;
    lemma_pow2_pos(1074);
    lemma_pow2_pos(64);
    lemma_fundamental_div_mod(scaled, whole);
    lemma_mod_bound(scaled, whole);
    lemma_mul_is_commutative(whole, scaled / whole);
    lemma_mul_is_distributive_add_other_way(whole, scaled / whole, 1);
    lemma_chance_patterns(chance);
    lemma_named_magnitudes();
    if chance != SIGN_MASK {
        lemma_magnitude_order(chance, ONE);
    }
    assert(magnitude(chance) <= unit());
    lemma_mul_inequality(magnitude(chance) as int, whole, pow2(64) as int);
    lemma_div_is_ordered(scaled, whole * pow2(64), whole);
    lemma_div_by_multiple(pow2(64) as int, whole);
    lemma_mul_is_commutative(whole, pow2(64) as int);
}

/// Draws sixty-four bits from the thread-local generator of `rand`, by
/// `RngCore::next_u64` on `rand::thread_rng()`. The word is random, so nothing
/// is claimed of it.
#[verifier::external_body]
fn draw_word() -> (word: u64) {
    rand::thread_rng().next_u64()
}

/// The threshold of a chance below one.
pub fn threshold_below_one(chance: u64) -> (limit: u64)
    requires
        is_chance(chance),
        chance != ONE,
    ensures
        limit == threshold(chance),
{
    let e: u64 = (chance / FRACTION_SPAN) % 2048;
    let significand: u64 = FRACTION_SPAN + chance % FRACTION_SPAN;
    proof {
        lemma_threshold_by_exponent(chance);
        lemma2_to64_rest();
    }
    if e < 959 {
        0
    } else if e < 1011 {
        let shift: u64 = 1011 - e;
        proof {
            lemma_u64_shr_is_div(significand, shift);
        }
        significand >> shift
    } else {
        let shift: u64 = e - 1011;
        proof {
            lemma2_to64();
            lemma_pow2_pos(shift as nat);
            if shift < 11 {
                lemma_pow2_strictly_increases(shift as nat, 11);
            }
            assert(significand * pow2(shift as nat) <= u64::MAX) by (nonlinear_arith)
                requires
                    significand < 0x20_0000_0000_0000,
                    0 < pow2(shift as nat) <= 0x800,
            ;
            lemma_u64_shl_is_mul(significand, shift);
        }
        significand << shift
    }
}

/// Decides a trial on a word drawn elsewhere.
pub fn trial_on(chance: u64, word: u64) -> (hit: bool)
    requires
        is_chance(chance),
    ensures
        hit == succeeds(chance, word),
{
    if chance == ONE {
        proof {
            lemma_chance_patterns(chance);
            lemma_sure_thresholds(chance);
        }
        true
    } else {
        word < threshold_below_one(chance)
    }
}

/// Draws a word and decides a trial on it. Whatever the word, a hit is one
/// that some word brings about, and so is a miss.
pub fn trial(chance: u64) -> (hit: bool)
    requires
        is_chance(chance),
    ensures
        hit ==> can_succeed(chance),
        !hit ==> can_fail(chance),
        is_one(chance) ==> hit,
        is_zero(chance) ==> !hit,
{
    proof {
        lemma_sure_thresholds(chance);
    }
    let word = draw_word();
    trial_on(chance, word)
}

} // verus!

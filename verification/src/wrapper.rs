//! The wrapper: a value and the chance that an access reveals it.

use crate::binary64::{
    is_chance, is_one, is_same_number, is_zero, lemma_chance_patterns, lemma_named_magnitudes,
    magnitude, unit, HALF,
};
use crate::error::InvalidChance;
use crate::trial::{can_fail, can_succeed, lemma_sure_thresholds, succeeds, trial, trial_on};
use vstd::prelude::*;
use vstd::std_specs::cmp::PartialEqSpec;

verus! {

/// What a wrapper holds, as its contracts see it.
pub struct Contents<T> {
    /// The chance that an access succeeds, as a binary64 bit pattern.
    pub chance: u64,
    /// The wrapped value.
    pub value: T,
}

/// A bit pattern that is known to stand for a probability.
#[derive(Debug, Clone, Copy)]
struct Chance {
    bits: u64,
}

impl Chance {
    #[verifier::type_invariant]
    spec fn is_valid(self) -> bool {
        is_chance(self.bits)
    }
}

/// A value that each access reveals with a fixed chance, and otherwise keeps
/// to itself.
#[derive(Debug, Clone)]
pub struct ChanceTheWrapper<T> {
    chance: Chance,
    value: T,
}

impl<T> View for ChanceTheWrapper<T> {
    type V = Contents<T>;

    closed spec fn view(&self) -> Contents<T> {
        Contents { chance: self.chance.bits, value: self.value }
    }
}

impl<T> ChanceTheWrapper<T> {
    /// What `new` makes of a value.
    pub open spec fn spec_new(value: T) -> Contents<T> {
        Contents { chance: HALF, value }
    }

    /// What `with_chance` makes of a value and a chance, where it makes anything.
    pub open spec fn spec_with_chance(value: T, chance: u64) -> Option<Contents<T>> {
        if is_chance(chance) {
            Some(Contents { chance, value })
        } else {
            None
        }
    }

    /// Creates a new wrapper with a 50% chance of succeeding.
    pub fn new(value: T) -> (made: Self)
        ensures
            made@ == Self::spec_new(value),
    {
        proof {
            lemma_chance_patterns(HALF);
        }
        Self { chance: Chance { bits: HALF }, value }
    }

    /// Creates a new wrapper.
    ///
    /// The chance is given as the bit pattern of a double. It must not be
    /// less than zero, greater than one, or NaN.
    pub fn with_chance(value: T, chance: u64) -> (made: Result<Self, InvalidChance>)
        ensures
            made is Ok <==> is_chance(chance),
            match made {
                Ok(wrapper) => Self::spec_with_chance(value, chance) == Some(wrapper@),
                Err(_) => Self::spec_with_chance(value, chance).is_none(),
            },
    {
        if !is_chance(chance) {
            return Err(InvalidChance);
        }
        Ok(Self { chance: Chance { bits: chance }, value })
    }

    /// The chance of this wrapper, as the bit pattern of a double.
    pub fn chance(&self) -> (bits: u64)
        ensures
            bits == self@.chance,
            is_chance(bits),
    {
        proof {
            use_type_invariant(&self.chance);
        }
        self.chance.bits
    }

    /// One trial with the chance of this wrapper.
    fn maybe(&self) -> (hit: bool)
        ensures
            hit ==> can_succeed(self@.chance),
            !hit ==> can_fail(self@.chance),
    {
        proof {
            use_type_invariant(&self.chance);
        }
        trial(self.chance.bits)
    }

    /// Returns a reference to the value if a trial on `word` succeeds.
    pub fn get_on(&self, word: u64) -> (found: Option<&T>)
        ensures
            found is Some <==> succeeds(self@.chance, word),
            found matches Some(value) ==> *value == self@.value,
    {
        proof {
            use_type_invariant(&self.chance);
        }
        if trial_on(self.chance.bits, word) {
            Some(&self.value)
        } else {
            None
        }
    }

    /// Returns a mutable reference to the value if a trial on `word` succeeds.
    pub fn get_mut_on(&mut self, word: u64) -> (found: Option<&mut T>)
        ensures
            found is Some <==> succeeds(old(self)@.chance, word),
            final(self)@.chance == old(self)@.chance,
            match found {
                Some(value) => *value == old(self)@.value && final(self)@.value == *final(value),
                None => final(self)@.value == old(self)@.value,
            },
    {
        proof {
            use_type_invariant(&self.chance);
        }
        if trial_on(self.chance.bits, word) {
            Some(&mut self.value)
        } else {
            None
        }
    }

    /// Turns the wrapper into the value if a trial on `word` succeeds, and
    /// drops both if it fails.
    pub fn into_value_on(self, word: u64) -> (found: Option<T>)
        ensures
            found == if succeeds(self@.chance, word) {
                Some(self@.value)
            } else {
                None
            },
    {
        proof {
            use_type_invariant(&self.chance);
        }
        if trial_on(self.chance.bits, word) {
            Some(self.value)
        } else {
            None
        }
    }

    /// Maybe returns a reference to the value.
    pub fn get(&self) -> (found: Option<&T>)
        ensures
            found matches Some(value) ==> *value == self@.value,
            found is Some ==> can_succeed(self@.chance),
            found is None ==> can_fail(self@.chance),
            is_one(self@.chance) ==> found is Some,
            is_zero(self@.chance) ==> found is None,
    {
        proof {
            lemma_sure_thresholds(self@.chance);
        }
        if self.maybe() {
            Some(&self.value)
        } else {
            None
        }
    }

    /// Maybe returns a mutable reference to the value.
    pub fn get_mut(&mut self) -> (found: Option<&mut T>)
        ensures
            final(self)@.chance == old(self)@.chance,
            match found {
                Some(value) => *value == old(self)@.value && final(self)@.value == *final(value),
                None => final(self)@.value == old(self)@.value,
            },
            found is Some ==> can_succeed(old(self)@.chance),
            found is None ==> can_fail(old(self)@.chance),
            is_one(old(self)@.chance) ==> found is Some,
            is_zero(old(self)@.chance) ==> found is None,
    {
        proof {
            lemma_sure_thresholds(self@.chance);
        }
        if self.maybe() {
            Some(&mut self.value)
        } else {
            None
        }
    }

    /// Maybe turns the wrapper into the value.
    pub fn into_value(self) -> (found: Option<T>)
        ensures
            found matches Some(value) ==> value == self@.value,
            found is Some ==> can_succeed(self@.chance),
            found is None ==> can_fail(self@.chance),
            is_one(self@.chance) ==> found is Some,
            is_zero(self@.chance) ==> found is None,
    {
        proof {
            lemma_sure_thresholds(self@.chance);
        }
        if self.maybe() {
            Some(self.value)
        } else {
            None
        }
    }
}

/// `new` makes the wrapper that `with_chance` makes of the same value and the
/// pattern of one half, and that pattern stands for half of one.
pub proof fn lemma_new_is_with_half<T>(value: T)
    ensures
        2 * magnitude(HALF) == unit(),
        ChanceTheWrapper::<T>::spec_with_chance(value, HALF) == Some(
            ChanceTheWrapper::<T>::spec_new(value),
        ),
{
    lemma_chance_patterns(HALF);
    lemma_named_magnitudes();
}

impl<T: PartialEqSpec> PartialEq for ChanceTheWrapper<T> {
    /// Two wrappers are equal when their chances are the same number and
    /// their values are equal.
    fn eq(&self, other: &Self) -> (equal: bool) {
        is_same_number(self.chance.bits, other.chance.bits) && self.value == other.value
    }
}

impl<T: PartialEqSpec> vstd::std_specs::cmp::PartialEqSpecImpl for ChanceTheWrapper<T> {
    open spec fn obeys_eq_spec() -> bool {
        T::obeys_eq_spec()
    }

    open spec fn eq_spec(&self, other: &Self) -> bool {
        is_same_number(self@.chance, other@.chance) && self@.value.eq_spec(&other@.value)
    }
}

} // verus!

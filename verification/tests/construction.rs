use chance_the_wrapper::binary64::{HALF, ONE, SIGN_MASK};
use chance_the_wrapper::{ChanceTheWrapper, InvalidChance};

#[test]
fn chance_above_one_is_rejected() {
    assert_eq!(
        ChanceTheWrapper::with_chance(42, 1.5f64.to_bits()).err(),
        Some(InvalidChance)
    );
}

#[test]
fn chance_of_one_half_is_accepted() {
    let wrapper = ChanceTheWrapper::with_chance(42, 0.5f64.to_bits()).unwrap();
    assert_eq!(wrapper.chance(), 0.5f64.to_bits());
    assert_eq!(wrapper.get_on(0), Some(&42));
}

#[test]
fn valid_chances_are_stored_exactly() {
    let chances = [
        0.0,
        -0.0,
        5e-324,
        f64::MIN_POSITIVE,
        1e-300,
        1e-20,
        0.1,
        0.25,
        0.3,
        0.5,
        0.75,
        0.999_999_999_999_999_9,
        1.0,
    ];
    for chance in chances {
        let wrapper = ChanceTheWrapper::with_chance("value", chance.to_bits()).unwrap();
        assert_eq!(wrapper.chance(), chance.to_bits());
        assert_eq!(f64::from_bits(wrapper.chance()), chance);
    }
}

#[test]
fn invalid_chances_are_rejected() {
    let chances = [
        -5e-324,
        -f64::MIN_POSITIVE,
        -0.1,
        -1.0,
        f64::MIN,
        f64::NEG_INFINITY,
        1.000_000_000_000_000_2,
        1.5,
        2.0,
        f64::MAX,
        f64::INFINITY,
        f64::NAN,
        -f64::NAN,
        f64::from_bits(0x7FF0_0000_0000_0001),
        f64::from_bits(0xFFFF_FFFF_FFFF_FFFF),
    ];
    for chance in chances {
        assert_eq!(
            ChanceTheWrapper::with_chance(42, chance.to_bits()).err(),
            Some(InvalidChance)
        );
    }
}

#[test]
fn validity_agrees_with_float_comparison() {
    let mut bits: u64 = 0x0123_4567_89AB_CDEF;
    for _ in 0..200_000 {
        bits = bits
            .wrapping_mul(6364136223846793005)
            .wrapping_add(1442695040888963407);
        let chance = f64::from_bits(bits);
        let invalid = chance < 0.0 || chance > 1.0 || chance.is_nan();
        assert_eq!(ChanceTheWrapper::with_chance((), bits).is_err(), invalid);
    }
}

#[test]
fn validity_at_the_borders() {
    assert!(ChanceTheWrapper::with_chance((), 0).is_ok());
    assert!(ChanceTheWrapper::with_chance((), ONE).is_ok());
    assert!(ChanceTheWrapper::with_chance((), ONE - 1).is_ok());
    assert!(ChanceTheWrapper::with_chance((), ONE + 1).is_err());
    assert!(ChanceTheWrapper::with_chance((), SIGN_MASK).is_ok());
    assert!(ChanceTheWrapper::with_chance((), SIGN_MASK + 1).is_err());
    assert!(ChanceTheWrapper::with_chance((), SIGN_MASK - 1).is_err());
    assert!(ChanceTheWrapper::with_chance((), u64::MAX).is_err());
}

#[test]
fn new_has_a_chance_of_one_half() {
    let wrapper = ChanceTheWrapper::new(7);
    assert_eq!(wrapper.chance(), HALF);
    assert_eq!(f64::from_bits(wrapper.chance()), 0.5);
}

#[test]
fn new_equals_with_chance_of_one_half() {
    let made = ChanceTheWrapper::new(String::from("v"));
    let made_with = ChanceTheWrapper::with_chance(String::from("v"), 0.5f64.to_bits()).unwrap();
    assert!(made == made_with);
    assert_eq!(made.chance(), made_with.chance());
}

#[test]
fn equality_compares_chance_and_value() {
    let half = ChanceTheWrapper::new(1);
    let quarter = ChanceTheWrapper::with_chance(1, 0.25f64.to_bits()).unwrap();
    let other_value = ChanceTheWrapper::new(2);
    assert!(half == ChanceTheWrapper::new(1));
    assert!(half != quarter);
    assert!(half != other_value);
}

#[test]
fn equality_takes_both_zeros_for_one_number() {
    let positive = ChanceTheWrapper::with_chance(1, 0.0f64.to_bits()).unwrap();
    let negative = ChanceTheWrapper::with_chance(1, (-0.0f64).to_bits()).unwrap();
    assert_ne!(positive.chance(), negative.chance());
    assert!(positive == negative);
}

#[test]
fn clone_keeps_chance_and_value() {
    let wrapper = ChanceTheWrapper::with_chance(vec![1, 2, 3], 0.75f64.to_bits()).unwrap();
    let copy = wrapper.clone();
    assert!(wrapper == copy);
    assert_eq!(copy.chance(), 0.75f64.to_bits());
    assert_eq!(copy.into_value_on(0), Some(vec![1, 2, 3]));
}

#[test]
fn error_message() {
    assert_eq!(InvalidChance.message(), "chance must be between 0.0 and 1.0");
}

#[test]
fn error_is_comparable_and_clonable() {
    let error = InvalidChance;
    assert_eq!(error.clone(), InvalidChance);
    assert_eq!(format!("{:?}", error), "InvalidChance");
}

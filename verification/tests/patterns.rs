use chance_the_wrapper::binary64::{
    is_above_one, is_below_zero, is_chance, is_nan, is_same_number, FRACTION_SPAN, HALF, INFINITY,
    ONE, SIGN_MASK,
};

fn next(state: &mut u64) -> u64 {
    *state = state
        .wrapping_mul(6364136223846793005)
        .wrapping_add(1442695040888963407);
    *state
}

fn samples() -> Vec<u64> {
    let mut patterns = vec![
        0,
        1,
        FRACTION_SPAN - 1,
        FRACTION_SPAN,
        HALF,
        ONE - 1,
        ONE,
        ONE + 1,
        INFINITY - 1,
        INFINITY,
        INFINITY + 1,
        SIGN_MASK - 1,
    ];
    let negative: Vec<u64> = patterns.iter().map(|bits| bits | SIGN_MASK).collect();
    patterns.extend(negative);
    let mut state: u64 = 0xDEAD_BEEF_0BAD_F00D;
    for _ in 0..50_000 {
        patterns.push(next(&mut state));
    }
    patterns
}

#[test]
fn named_patterns() {
    assert_eq!(0.0f64.to_bits(), 0);
    assert_eq!((-0.0f64).to_bits(), SIGN_MASK);
    assert_eq!(0.5f64.to_bits(), HALF);
    assert_eq!(1.0f64.to_bits(), ONE);
    assert_eq!(f64::INFINITY.to_bits(), INFINITY);
    assert_eq!(2.0f64.powi(52) as u64, FRACTION_SPAN);
}

#[test]
fn nan_agrees_with_the_float() {
    for bits in samples() {
        assert_eq!(is_nan(bits), f64::from_bits(bits).is_nan());
    }
}

#[test]
fn below_zero_agrees_with_the_float() {
    for bits in samples() {
        assert_eq!(is_below_zero(bits), f64::from_bits(bits) < 0.0);
    }
}

#[test]
fn above_one_agrees_with_the_float() {
    for bits in samples() {
        assert_eq!(is_above_one(bits), f64::from_bits(bits) > 1.0);
    }
}

#[test]
fn chance_agrees_with_the_float() {
    for bits in samples() {
        let number = f64::from_bits(bits);
        assert_eq!(is_chance(bits), number >= 0.0 && number <= 1.0);
    }
}

#[test]
fn same_number_agrees_with_the_float() {
    let patterns = samples();
    for (index, a) in patterns.iter().enumerate().take(2_000) {
        for b in patterns.iter().take(24).chain(patterns.iter().skip(index).take(2)) {
            assert_eq!(
                is_same_number(*a, *b),
                f64::from_bits(*a) == f64::from_bits(*b)
            );
        }
    }
}

#[test]
fn zeros_are_the_same_number_and_nan_is_none() {
    assert!(is_same_number(0, SIGN_MASK));
    assert!(is_same_number(SIGN_MASK, 0));
    assert!(!is_same_number(INFINITY + 1, INFINITY + 1));
    assert!(is_same_number(INFINITY, INFINITY));
    assert!(!is_same_number(INFINITY, INFINITY | SIGN_MASK));
    assert!(!is_same_number(HALF, HALF | SIGN_MASK));
}

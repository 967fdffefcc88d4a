use staking_core::error::{Error, ErrorKind};
use staking_core::rewards::calculate_reward_rate;

#[test]
fn base_rate_without_bonus() {
    assert_eq!(calculate_reward_rate(10, 0), Ok(10));
    assert_eq!(calculate_reward_rate(0, 0), Ok(0));
    assert_eq!(calculate_reward_rate(u64::MAX, 0), Ok(u64::MAX));
}

#[test]
fn bonus_factor_monotone_examples() {
    assert_eq!(calculate_reward_rate(10, 0), Ok(10));
    assert_eq!(calculate_reward_rate(10, 50), Ok(15));
    assert_eq!(calculate_reward_rate(10, 100), Ok(20));
}

#[test]
fn bonus_truncates_toward_zero() {
    // A 50% bonus on a base rate of 3 yields 3 * 150 / 100 = 4, not 4.5.
    assert_eq!(calculate_reward_rate(3, 50), Ok(4));
    assert_eq!(calculate_reward_rate(1, 1), Ok(1));
    assert_eq!(calculate_reward_rate(99, 1), Ok(99));
}

#[test]
fn bonus_overflow_is_an_arithmetic_error() {
    assert_eq!(calculate_reward_rate(u64::MAX, 1), Err(Error::ArithmeticError));
    assert_eq!(calculate_reward_rate(1, u64::MAX), Err(Error::ArithmeticError));
    assert_eq!(
        calculate_reward_rate(u64::MAX, 1).unwrap_err().kind(),
        ErrorKind::Arithmetic
    );
}

#[test]
fn bonus_factor_full_range() {
    // The full u8 range of a lock's bonus factor stays in bounds for
    // moderate base rates.
    assert_eq!(calculate_reward_rate(100, 255), Ok(355));
    assert_eq!(calculate_reward_rate(2, 255), Ok(7));
}

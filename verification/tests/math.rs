use amm_contract::error::ContractError;
use amm_contract::math::{Decimal, DECIMAL_FRACTIONAL};

#[test]
fn decimal_constants() {
    assert_eq!(DECIMAL_FRACTIONAL, 1_000_000_000_000_000_000);
    assert_eq!(Decimal::one().atomics(), 1_000_000_000_000_000_000);
    assert_eq!(Decimal::zero().atomics(), 0);
    assert_eq!(Decimal::raw(42).atomics(), 42);
    assert_eq!(Decimal::raw(42), Decimal { atomics: 42 });
}

#[test]
fn from_ratio_rounds_down_to_eighteen_digits() {
    assert_eq!(Decimal::from_ratio(3, 1000).atomics(), 3_000_000_000_000_000);
    assert_eq!(Decimal::from_ratio(1, 3).atomics(), 333_333_333_333_333_333);
    assert_eq!(Decimal::from_ratio(2, 3).atomics(), 666_666_666_666_666_666);
    assert_eq!(Decimal::from_ratio(7, 7), Decimal::one());
    assert_eq!(Decimal::from_ratio(0, 5), Decimal::zero());
    assert_eq!(Decimal::from_ratio(5, 2).atomics(), 2_500_000_000_000_000_000);
}

#[test]
fn from_ratio_multiplies_in_more_than_128_bits() {
    // the product of numerator and 10^18 exceeds 128 bits, the quotient does not
    let large = u128::MAX / 2;
    assert_eq!(Decimal::from_ratio(large, large), Decimal::one());
    assert_eq!(
        Decimal::from_ratio(u128::MAX, u128::MAX / 3 * 3).atomics(),
        1_000_000_000_000_000_000
    );
}

#[test]
fn checked_from_ratio_refuses_zero_denominator_and_overflow() {
    assert_eq!(Decimal::checked_from_ratio(1, 0), None);
    assert_eq!(Decimal::checked_from_ratio(0, 0), None);
    assert_eq!(Decimal::checked_from_ratio(u128::MAX, 1), None);
    // the largest whole number that still fits
    let largest = u128::MAX / DECIMAL_FRACTIONAL;
    assert_eq!(
        Decimal::checked_from_ratio(largest, 1),
        Some(Decimal::raw(largest * DECIMAL_FRACTIONAL))
    );
    assert_eq!(Decimal::checked_from_ratio(largest + 1, 1), None);
    assert_eq!(Decimal::checked_from_ratio(3, 1000), Some(Decimal::raw(3_000_000_000_000_000)));
}

#[test]
fn from_ratio_agrees_with_cosmwasm_std() {
    let pairs: [(u128, u128); 6] =
        [(3, 1000), (1, 3), (100000, 100100), (13, 113), (u128::MAX / 7, u128::MAX), (1, u128::MAX)];
    for (numerator, denominator) in pairs {
        let theirs = cosmwasm_std::Decimal::from_ratio(numerator, denominator);
        assert_eq!(
            Decimal::from_ratio(numerator, denominator).atomics(),
            theirs.atomics().u128()
        );
    }
}

#[test]
fn config_fraction_bounds() {
    assert!(Decimal::from_ratio(3, 1000).atomics() < DECIMAL_FRACTIONAL);
    assert!(Decimal::one().atomics() >= DECIMAL_FRACTIONAL);
}

#[test]
fn error_messages() {
    assert_eq!(ContractError::InvalidFunds.message(), "Invalid funds sent");
    assert_eq!(ContractError::InvalidZeroAmount.message(), "Invalid zero amount");
    assert_eq!(ContractError::InvalidInitialFunds.message(), "Invalid initial funds provided");
    assert_eq!(ContractError::InvalidDepositRatio.message(), "Invalid deposit ratio");
    assert_eq!(
        ContractError::WithdrawError.message(),
        "Withdrawing more than your current balance"
    );
    assert_eq!(ContractError::DepositTooSmall.message(), "Deposit too small");
    assert_eq!(ContractError::Overflow.message(), "Overflow Error");
}

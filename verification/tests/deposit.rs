use amm_contract::error::ContractError;
use amm_contract::execute::{
    attached_funds_match, checked_expected_counterpart, checked_shares_to_mint, deposit,
    mint_liquidity_tokens, tolerance_band, withdraw,
};
use amm_contract::math::Decimal;
use amm_contract::msg::{coin, Coin, Config, Effect, MessageInfo};
use amm_contract::shares::ShareBalances;
use amm_contract::state::{PoolReserves, PoolState};

fn three_permille() -> Decimal {
    Decimal::from_ratio(3, 1000)
}

fn config() -> Config {
    Config {
        lp_token_addr: "lp_tokens".to_string(),
        fee_share: three_permille(),
        tolerance_percentage: three_permille(),
    }
}

fn pool_of(amount1: u128, amount2: u128, supply: u128) -> PoolState {
    PoolState {
        reserves: PoolReserves { asset1: coin(amount1, "asset1"), asset2: coin(amount2, "asset2") },
        total_supply: supply,
        share_balances: ShareBalances::new(),
        config: config(),
    }
}

fn depositor(funds: Vec<Coin>) -> MessageInfo {
    MessageInfo { sender: "depositor".to_string(), funds }
}

fn deposit_amounts(
    pool: &mut PoolState,
    amount1: u128,
    amount2: u128,
) -> Result<Vec<Effect>, ContractError> {
    deposit(
        pool,
        depositor(vec![coin(amount1, "asset1"), coin(amount2, "asset2")]),
        coin(amount1, "asset1"),
        coin(amount2, "asset2"),
    )
}

fn snapshot(pool: &PoolState) -> (u128, u128, u128, u128, Option<u128>) {
    (
        pool.reserves.asset1.amount,
        pool.reserves.asset2.amount,
        pool.total_supply,
        pool.share_balances.get(&"depositor".to_string()),
        pool.share_balances.checked_total(),
    )
}

#[test]
fn attached_funds_must_be_the_two_declared_coins() {
    let a = coin(10, "asset1");
    let b = coin(20, "asset2");
    assert!(attached_funds_match(&vec![coin(10, "asset1"), coin(20, "asset2")], &a, &b));
    assert!(attached_funds_match(&vec![coin(20, "asset2"), coin(10, "asset1")], &a, &b));
    assert!(!attached_funds_match(&vec![], &a, &b));
    assert!(!attached_funds_match(&vec![coin(10, "asset1")], &a, &b));
    assert!(!attached_funds_match(&vec![coin(10, "asset1"), coin(10, "asset1")], &a, &b));
    assert!(!attached_funds_match(&vec![coin(20, "asset2"), coin(20, "asset2")], &a, &b));
    assert!(!attached_funds_match(&vec![coin(10, "asset1"), coin(21, "asset2")], &a, &b));
    assert!(!attached_funds_match(&vec![coin(10, "asset1"), coin(20, "other")], &a, &b));
    assert!(!attached_funds_match(
        &vec![coin(10, "asset1"), coin(20, "asset2"), coin(1, "other")],
        &a,
        &b
    ));
    assert!(!attached_funds_match(
        &vec![coin(10, "asset1"), coin(20, "asset2"), coin(20, "asset2")],
        &a,
        &b
    ));
}

#[test]
fn the_same_coin_declared_twice_is_never_matched() {
    let a = coin(10, "asset1");
    assert!(!attached_funds_match(&vec![coin(10, "asset1"), coin(10, "asset1")], &a, &a));
}

#[test]
fn expected_counterpart_follows_the_ratio_and_rounds_down() {
    assert_eq!(checked_expected_counterpart(200, 1500, 3000), Ok(400));
    assert_eq!(checked_expected_counterpart(400, 3000, 1500), Ok(200));
    assert_eq!(checked_expected_counterpart(7, 3, 2), Ok(4));
    assert_eq!(checked_expected_counterpart(0, 3, 2), Ok(0));
    assert_eq!(checked_expected_counterpart(1, 1000, 1), Ok(0));
}

#[test]
fn expected_counterpart_overflow() {
    assert_eq!(checked_expected_counterpart(u128::MAX, 1, 2), Err(ContractError::Overflow));
    assert_eq!(checked_expected_counterpart(u128::MAX, 7, 1), Ok(u128::MAX / 7));
    assert_eq!(
        checked_expected_counterpart(1 << 64, 1 << 64, 1 << 64),
        Err(ContractError::Overflow)
    );
}

#[test]
fn tolerance_band_exact_values() {
    assert_eq!(tolerance_band(1000000, three_permille()), Ok((997000, 1003000)));
    assert_eq!(tolerance_band(400, three_permille()), Ok((398, 401)));
    assert_eq!(tolerance_band(5, three_permille()), Ok((4, 5)));
    assert_eq!(tolerance_band(0, three_permille()), Ok((0, 0)));
    assert_eq!(tolerance_band(1002, three_permille()), Ok((998, 1005)));
    assert_eq!(tolerance_band(1234, Decimal::zero()), Ok((1234, 1234)));
    assert_eq!(tolerance_band(1000, Decimal::from_ratio(1, 2)), Ok((500, 1500)));
}

#[test]
fn tolerance_band_overflow() {
    assert_eq!(tolerance_band(u128::MAX, three_permille()), Err(ContractError::Overflow));
    assert_eq!(tolerance_band(u128::MAX, Decimal::zero()), Ok((u128::MAX, u128::MAX)));
}

#[test]
fn tolerance_band_agrees_with_cosmwasm_std() {
    let tolerance = cosmwasm_std::Decimal::from_ratio(3u128, 1000u128);
    for expected in [0u128, 1, 5, 400, 1002, 1000000, 123456789012345678901234567890] {
        let lower =
            cosmwasm_std::Uint128::new(expected) * (cosmwasm_std::Decimal::one() - tolerance);
        let upper =
            cosmwasm_std::Uint128::new(expected) * (cosmwasm_std::Decimal::one() + tolerance);
        assert_eq!(
            tolerance_band(expected, three_permille()),
            Ok((lower.u128(), upper.u128()))
        );
    }
}

#[test]
fn shares_to_mint_takes_the_smaller_side() {
    assert_eq!(checked_shares_to_mint(&pool_of(1500, 3000, 100), 200, 400), Ok(13));
    assert_eq!(checked_shares_to_mint(&pool_of(1000, 1000, 1000), 1000, 1002), Ok(1000));
    assert_eq!(checked_shares_to_mint(&pool_of(1000, 1000, 1000), 1002, 1000), Ok(1000));
    assert_eq!(checked_shares_to_mint(&pool_of(1000, 2000, 30), 100, 100), Ok(1));
}

#[test]
fn shares_to_mint_errors() {
    assert_eq!(
        checked_shares_to_mint(&pool_of(1000, 1000, 100), 1, 1),
        Err(ContractError::DepositTooSmall)
    );
    assert_eq!(
        checked_shares_to_mint(&pool_of(1000, 1000, 100), 1000, 9),
        Err(ContractError::DepositTooSmall)
    );
    assert_eq!(
        checked_shares_to_mint(&pool_of(1000, 1000, 0), 1000, 1000),
        Err(ContractError::DepositTooSmall)
    );
    assert_eq!(
        checked_shares_to_mint(&pool_of(1000, 1000, 100), u128::MAX, 1),
        Err(ContractError::Overflow)
    );
    assert_eq!(
        checked_shares_to_mint(&pool_of(1000, 1000, 100), 1, u128::MAX),
        Err(ContractError::Overflow)
    );
}

#[test]
fn mint_instruction_names_ledger_recipient_and_amount() {
    assert_eq!(
        mint_liquidity_tokens(&config(), "alice".to_string(), 5),
        Effect::MintShares { ledger: "lp_tokens".to_string(), to: "alice".to_string(), amount: 5 }
    );
}

#[test]
fn deposit_updates_the_ledger_and_asks_for_the_mint() {
    let mut pool = pool_of(1500, 3000, 100);
    let effects = deposit_amounts(&mut pool, 200, 400).unwrap();
    assert_eq!(
        effects,
        vec![Effect::MintShares {
            ledger: "lp_tokens".to_string(),
            to: "depositor".to_string(),
            amount: 13,
        }]
    );
    assert_eq!(
        pool.reserves,
        PoolReserves { asset1: coin(1700, "asset1"), asset2: coin(3400, "asset2") }
    );
    assert_eq!(pool.total_supply, 113);
    assert_eq!(pool.share_balances.get(&"depositor".to_string()), 13);
    assert_eq!(pool.config, config());
}

#[test]
fn deposit_accepts_funds_in_either_order() {
    let mut pool = pool_of(1000, 1000, 100);
    let effects = deposit(
        &mut pool,
        depositor(vec![coin(1000, "asset2"), coin(1000, "asset1")]),
        coin(1000, "asset1"),
        coin(1000, "asset2"),
    )
    .unwrap();
    assert_eq!(effects.len(), 1);
    assert_eq!(snapshot(&pool), (2000, 2000, 200, 100, Some(100)));
}

#[test]
fn deposits_of_one_holder_add_up() {
    let mut pool = pool_of(1000, 1000, 100);
    deposit_amounts(&mut pool, 1000, 1000).unwrap();
    deposit_amounts(&mut pool, 500, 500).unwrap();
    // the second deposit earns 500 * 200 / 2000
    assert_eq!(snapshot(&pool), (2500, 2500, 250, 150, Some(150)));
}

#[test]
fn deposit_with_wrong_funds_is_refused_and_changes_nothing() {
    let mut pool = pool_of(1000, 1000, 100);
    let before = snapshot(&pool);
    for funds in [
        vec![],
        vec![coin(1000, "asset1")],
        vec![coin(1000, "asset1"), coin(999, "asset2")],
        vec![coin(1000, "asset1"), coin(1000, "asset2"), coin(1, "asset3")],
    ] {
        assert_eq!(
            deposit(&mut pool, depositor(funds), coin(1000, "asset1"), coin(1000, "asset2")),
            Err(ContractError::InvalidFunds)
        );
        assert_eq!(snapshot(&pool), before);
    }
}

#[test]
fn deposit_at_the_upper_bound_is_accepted_and_one_beyond_refused() {
    // 1000000 of asset 1 asks for 1000000 of asset 2: the band ends at 1003000
    let mut pool = pool_of(1000, 1000, 100);
    assert_eq!(deposit_amounts(&mut pool, 1000000, 1003001), Err(ContractError::InvalidDepositRatio));
    assert_eq!(snapshot(&pool), (1000, 1000, 100, 0, Some(0)));
    assert!(deposit_amounts(&mut pool, 1000000, 1003000).is_ok());
    assert_eq!(snapshot(&pool), (1001000, 1004000, 100100, 100000, Some(100000)));
}

#[test]
fn deposit_at_the_lower_bound_is_accepted_and_one_beyond_refused() {
    // 997009 of asset 2 is the least for which 1000000 of asset 1 is still
    // within the band of asset 1, which then ends at 1000000
    assert_eq!(tolerance_band(997009, three_permille()), Ok((994017, 1000000)));
    assert_eq!(tolerance_band(997008, three_permille()), Ok((994016, 999999)));
    let mut pool = pool_of(1000, 1000, 100);
    assert_eq!(deposit_amounts(&mut pool, 1000000, 997008), Err(ContractError::InvalidDepositRatio));
    assert_eq!(snapshot(&pool), (1000, 1000, 100, 0, Some(0)));
    assert!(deposit_amounts(&mut pool, 1000000, 997009).is_ok());
    assert_eq!(snapshot(&pool), (1001000, 998009, 99800, 99700, Some(99700)));
}

#[test]
fn deposit_far_off_the_ratio_is_refused() {
    let mut pool = pool_of(1000, 1000, 100);
    assert_eq!(deposit_amounts(&mut pool, 1000000, 100), Err(ContractError::InvalidDepositRatio));
    assert_eq!(deposit_amounts(&mut pool, 100, 1000000), Err(ContractError::InvalidDepositRatio));
    assert_eq!(snapshot(&pool), (1000, 1000, 100, 0, Some(0)));
}

#[test]
fn deposit_too_small_is_refused_and_changes_nothing() {
    let mut pool = pool_of(1000, 1000, 100);
    assert_eq!(deposit_amounts(&mut pool, 5, 5), Err(ContractError::DepositTooSmall));
    assert_eq!(deposit_amounts(&mut pool, 9, 9), Err(ContractError::DepositTooSmall));
    assert_eq!(snapshot(&pool), (1000, 1000, 100, 0, Some(0)));
    assert!(deposit_amounts(&mut pool, 10, 10).is_ok());
    assert_eq!(snapshot(&pool), (1010, 1010, 101, 1, Some(1)));
}

#[test]
fn deposit_overflow_in_the_ratio_is_refused() {
    let mut pool = pool_of(1000, 1000, 100);
    assert_eq!(deposit_amounts(&mut pool, u128::MAX, u128::MAX), Err(ContractError::Overflow));
    assert_eq!(deposit_amounts(&mut pool, u128::MAX / 999, 1), Err(ContractError::Overflow));
    assert_eq!(deposit_amounts(&mut pool, 1, u128::MAX / 999), Err(ContractError::Overflow));
    // the products fit here, and the ratio decides
    assert_eq!(
        deposit_amounts(&mut pool, u128::MAX / 1000, 1),
        Err(ContractError::InvalidDepositRatio)
    );
    assert_eq!(snapshot(&pool), (1000, 1000, 100, 0, Some(0)));
}

#[test]
fn deposit_overflow_in_the_band_is_refused() {
    // the products fit, the upper bound of the band does not
    let mut pool = pool_of(1, 1, 100);
    assert_eq!(deposit_amounts(&mut pool, u128::MAX, u128::MAX), Err(ContractError::Overflow));
    assert_eq!(snapshot(&pool), (1, 1, 100, 0, Some(0)));
}

#[test]
fn deposit_overflow_in_the_shares_is_refused() {
    // the ratio is fine, the product of amount and supply is not
    let mut pool = pool_of(1000, 1000, u128::MAX);
    assert_eq!(deposit_amounts(&mut pool, 1000, 1000), Err(ContractError::Overflow));
    assert_eq!(snapshot(&pool), (1000, 1000, u128::MAX, 0, Some(0)));
}

#[test]
fn deposit_overflow_in_the_new_totals_is_refused() {
    // the supply would double
    let supply = u128::MAX / 2 + 1;
    let mut pool = pool_of(1, 1, supply);
    assert_eq!(deposit_amounts(&mut pool, 1, 1), Err(ContractError::Overflow));
    assert_eq!(snapshot(&pool), (1, 1, supply, 0, Some(0)));
    // a reserve would exceed the range
    let mut pool = pool_of(u128::MAX, u128::MAX, u128::MAX);
    assert_eq!(deposit_amounts(&mut pool, 1, 1), Err(ContractError::Overflow));
    assert_eq!(snapshot(&pool), (u128::MAX, u128::MAX, u128::MAX, 0, Some(0)));
}

#[test]
fn proportional_deposit_mints_supply_times_deposited_part() {
    for (reserve1, reserve2, supply, amount1, amount2) in [
        (1500u128, 3000u128, 100u128, 200u128, 400u128),
        (1000, 1000, 100, 1000000, 1000000),
        (7, 21, 1000, 3, 9),
        (123456, 1234560, 777, 1000, 10000),
    ] {
        let mut pool = pool_of(reserve1, reserve2, supply);
        let effects = deposit_amounts(&mut pool, amount1, amount2).unwrap();
        let minted = supply * amount1 / reserve1;
        assert_eq!(minted, supply * amount2 / reserve2);
        assert_eq!(
            effects,
            vec![Effect::MintShares {
                ledger: "lp_tokens".to_string(),
                to: "depositor".to_string(),
                amount: minted,
            }]
        );
        assert_eq!(pool.total_supply, supply + minted);
    }
}

#[test]
fn withdrawing_what_a_deposit_minted_returns_no_more_than_was_deposited() {
    for (reserve1, reserve2, supply, amount1, amount2) in [
        (1000u128, 1000u128, 100u128, 1000000u128, 1000000u128),
        (1500, 3000, 100, 200, 400),
        (1000, 1000, 1000, 1000, 1002),
        (7, 21, 1000, 3, 9),
        (999, 1001, 12345, 500, 501),
    ] {
        let mut pool = pool_of(reserve1, reserve2, supply);
        let minted = match &deposit_amounts(&mut pool, amount1, amount2).unwrap()[0] {
            Effect::MintShares { amount, .. } => *amount,
            other => panic!("unexpected effect {:?}", other),
        };
        let effects = withdraw(&mut pool, depositor(vec![]), minted).unwrap();
        match (&effects[1], &effects[2]) {
            (
                Effect::TransferAsset { amount: returned1, .. },
                Effect::TransferAsset { amount: returned2, .. },
            ) => {
                assert!(*returned1 <= amount1);
                assert!(*returned2 <= amount2);
            }
            other => panic!("unexpected effects {:?}", other),
        }
        assert!(pool.reserves.asset1.amount >= reserve1);
        assert!(pool.reserves.asset2.amount >= reserve2);
        assert_eq!(pool.total_supply, supply);
    }
}

#[test]
fn round_trip_of_the_large_deposit_returns_it_whole() {
    let mut pool = pool_of(1000, 1000, 100);
    deposit_amounts(&mut pool, 1000000, 1000000).unwrap();
    let effects = withdraw(&mut pool, depositor(vec![]), 100000).unwrap();
    assert_eq!(
        effects[1],
        Effect::TransferAsset {
            to: "depositor".to_string(),
            denom: "asset1".to_string(),
            amount: 1000000,
        }
    );
    assert_eq!(snapshot(&pool), (1000, 1000, 100, 0, Some(0)));
}

#[test]
fn round_trip_of_an_uneven_deposit_leaves_the_rounding_in_the_pool() {
    // 200 and 400 mint 13 shares, which stand for 195 and 391
    let mut pool = pool_of(1500, 3000, 100);
    deposit_amounts(&mut pool, 200, 400).unwrap();
    let effects = withdraw(&mut pool, depositor(vec![]), 13).unwrap();
    assert_eq!(
        effects[1],
        Effect::TransferAsset {
            to: "depositor".to_string(),
            denom: "asset1".to_string(),
            amount: 195,
        }
    );
    assert_eq!(
        effects[2],
        Effect::TransferAsset {
            to: "depositor".to_string(),
            denom: "asset2".to_string(),
            amount: 391,
        }
    );
    assert_eq!(snapshot(&pool), (1505, 3009, 100, 0, Some(0)));
}

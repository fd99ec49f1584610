use crate::error::ContractError;
use crate::math::{
    lemma_mul_floor_bounds, lemma_mul_ratio_of_part, mul_floor, mul_floor_checked,
    multiply_ratio_checked, Decimal, DECIMAL_FRACTIONAL,
};
use crate::msg::{
    coins_view, effects_view, Coin, CoinView, Config, ConfigView, Effect, EffectView, MessageInfo,
    MessageInfoView,
};
use crate::shares::{balance_of, lemma_balance_within_total, lemma_share_total_insert};
use crate::state::{PoolReservesView, PoolState, PoolView};
use vstd::prelude::*;

verus! {

/// What a transition yields: the ledger after it and the effects to carry
/// out, or the reason for refusing it.
pub type Outcome = Result<(PoolView, Seq<EffectView>), ContractError>;

/// The outcome of a transition that leaves the ledger `after` and asks for
/// `effects`.
pub open spec fn accepted(after: PoolView, effects: Seq<EffectView>) -> Outcome {
    Ok((after, effects))
}

/// The outcome of a transition that is refused with `error`.
pub open spec fn refused(error: ContractError) -> Outcome {
    Err(error)
}

// ---------------------------------------------------------------------------
// Deposit
// ---------------------------------------------------------------------------

/// The attached funds are the two declared coins, once each, in either
/// order, and nothing else.
pub open spec fn funds_match(funds: Seq<CoinView>, asset1: CoinView, asset2: CoinView) -> bool {
    &&& funds.len() == 2
    &&& asset1 != asset2
    &&& (funds[0] == asset1 && funds[1] == asset2) || (funds[0] == asset2 && funds[1] == asset1)
}

/// What the pool's ratio asks of the other asset for `amount` of the one
/// with reserve `reserve`.
pub open spec fn expected_counterpart(amount: nat, reserve: nat, counter_reserve: nat) -> nat {
    amount * counter_reserve / reserve
}

/// The least amount accepted where `expected` is due.
pub open spec fn band_lower(expected: nat, tolerance: nat) -> nat {
    mul_floor(expected, (DECIMAL_FRACTIONAL - tolerance) as nat)
}

/// The greatest amount accepted where `expected` is due.
pub open spec fn band_upper(expected: nat, tolerance: nat) -> nat {
    mul_floor(expected, (DECIMAL_FRACTIONAL + tolerance) as nat)
}

/// `amount` lies in the tolerance band around `expected`, bounds included.
pub open spec fn within_band(amount: nat, expected: nat, tolerance: nat) -> bool {
    band_lower(expected, tolerance) <= amount <= band_upper(expected, tolerance)
}

/// The amount of asset 2 that the pool's ratio asks for beside `amount1`.
pub open spec fn expected_asset2(pool: PoolView, amount1: nat) -> nat {
    expected_counterpart(amount1, pool.reserves.asset1.amount, pool.reserves.asset2.amount)
}

/// The amount of asset 1 that the pool's ratio asks for beside `amount2`.
pub open spec fn expected_asset1(pool: PoolView, amount2: nat) -> nat {
    expected_counterpart(amount2, pool.reserves.asset2.amount, pool.reserves.asset1.amount)
}

/// Some number needed to judge the ratio of a deposit exceeds 128 bits.
pub open spec fn deposit_ratio_overflows(pool: PoolView, amount1: nat, amount2: nat) -> bool {
    let tolerance = pool.config.tolerance_percentage;
    ||| amount1 * pool.reserves.asset2.amount > u128::MAX
    ||| amount2 * pool.reserves.asset1.amount > u128::MAX
    ||| band_upper(expected_asset2(pool, amount1), tolerance) > u128::MAX
    ||| band_upper(expected_asset1(pool, amount2), tolerance) > u128::MAX
}

/// Each amount lies in the band around what the other one asks for.
pub open spec fn deposit_ratio_accepted(pool: PoolView, amount1: nat, amount2: nat) -> bool {
    let tolerance = pool.config.tolerance_percentage;
    &&& within_band(amount1, expected_asset1(pool, amount2), tolerance)
    &&& within_band(amount2, expected_asset2(pool, amount1), tolerance)
}

/// The shares that a deposit of `amount` earns on the side with reserve
/// `reserve`.
pub open spec fn shares_for_side(amount: nat, total_supply: nat, reserve: nat) -> nat {
    amount * total_supply / reserve
}

/// Some product needed to count the shares of a deposit exceeds 128 bits.
pub open spec fn deposit_mint_overflows(pool: PoolView, amount1: nat, amount2: nat) -> bool {
    ||| amount1 * pool.total_supply > u128::MAX
    ||| amount2 * pool.total_supply > u128::MAX
}

/// The shares minted for a deposit: what the side that earns less earns.
pub open spec fn shares_to_mint(pool: PoolView, amount1: nat, amount2: nat) -> nat {
    let side1 = shares_for_side(amount1, pool.total_supply, pool.reserves.asset1.amount);
    let side2 = shares_for_side(amount2, pool.total_supply, pool.reserves.asset2.amount);
    if side1 <= side2 {
        side1
    } else {
        side2
    }
}

/// A reserve or the share supply would exceed 128 bits after the deposit.
pub open spec fn deposit_credit_overflows(pool: PoolView, amount1: nat, amount2: nat) -> bool {
    ||| pool.reserves.asset1.amount + amount1 > u128::MAX
    ||| pool.reserves.asset2.amount + amount2 > u128::MAX
    ||| pool.total_supply + shares_to_mint(pool, amount1, amount2) > u128::MAX
}

/// The ledger after `sender` deposited the two amounts for `minted` shares.
pub open spec fn pool_after_deposit(
    pool: PoolView,
    sender: Seq<char>,
    amount1: nat,
    amount2: nat,
    minted: nat,
) -> PoolView {
    PoolView {
        reserves: PoolReservesView {
            asset1: CoinView {
                denom: pool.reserves.asset1.denom,
                amount: pool.reserves.asset1.amount + amount1,
            },
            asset2: CoinView {
                denom: pool.reserves.asset2.denom,
                amount: pool.reserves.asset2.amount + amount2,
            },
        },
        total_supply: pool.total_supply + minted,
        share_balances: pool.share_balances.insert(
            sender,
            balance_of(pool.share_balances, sender) + minted,
        ),
        config: pool.config,
    }
}

/// The instruction to mint `amount` liquidity tokens for `recipient`.
pub open spec fn mint_effect(config: ConfigView, recipient: Seq<char>, amount: nat) -> EffectView {
    EffectView::MintShares { ledger: config.lp_token_addr, to: recipient, amount }
}

/// What a deposit does, on a pool that can take one.
///
/// The checks come in this order: the attached funds, the ratio of the two
/// amounts, the number of shares, the new totals.  The first that fails
/// decides the error.
pub open spec fn deposit_spec(
    pool: PoolView,
    info: MessageInfoView,
    asset1: CoinView,
    asset2: CoinView,
) -> Outcome {
    let minted = shares_to_mint(pool, asset1.amount, asset2.amount);
    if !funds_match(info.funds, asset1, asset2) {
        refused(ContractError::InvalidFunds)
    } else if deposit_ratio_overflows(pool, asset1.amount, asset2.amount) {
        refused(ContractError::Overflow)
    } else if !deposit_ratio_accepted(pool, asset1.amount, asset2.amount) {
        refused(ContractError::InvalidDepositRatio)
    } else if deposit_mint_overflows(pool, asset1.amount, asset2.amount) {
        refused(ContractError::Overflow)
    } else if minted == 0 {
        refused(ContractError::DepositTooSmall)
    } else if deposit_credit_overflows(pool, asset1.amount, asset2.amount) {
        refused(ContractError::Overflow)
    } else {
        accepted(
            pool_after_deposit(pool, info.sender, asset1.amount, asset2.amount, minted),
            seq![mint_effect(pool.config, info.sender, minted)],
        )
    }
}

/// Whether the attached funds are exactly the two declared coins.
pub fn attached_funds_match(funds: &Vec<Coin>, asset1: &Coin, asset2: &Coin) -> (matching: bool)
    ensures
        matching == funds_match(coins_view(funds@), asset1@, asset2@),
{
    if funds.len() != 2 {
        return false;
    }
    let mut asset1_received = false;
    let mut asset2_received = false;
    let mut i: usize = 0;
    while i < 2
        invariant
            i <= 2,
            funds.len() == 2,
            asset1_received == exists|j: int| 0 <= j < i && #[trigger] funds[j]@ == asset1@,
            asset2_received == exists|j: int|
                0 <= j < i && #[trigger] funds[j]@ != asset1@ && funds[j]@ == asset2@,
        decreases 2 - i,
    {
        if funds[i].same_as(asset1) {
            asset1_received = true;
        } else if funds[i].same_as(asset2) {
            asset2_received = true;
        }
        i = i + 1;
    }
    proof {
        let attached = coins_view(funds@);
        assert(attached[0] == funds[0]@ && attached[1] == funds[1]@);
    }
    asset1_received && asset2_received
}

/// The amount that the pool's ratio asks of the other asset, or `Overflow`
/// where the product of amount and reserve exceeds 128 bits.
pub fn checked_expected_counterpart(amount: u128, reserve: u128, counter_reserve: u128) -> (expected:
    Result<u128, ContractError>)
    requires
        reserve > 0,
    ensures
        expected is Err <==> amount * counter_reserve > u128::MAX,
        expected is Err ==> expected->Err_0 == ContractError::Overflow,
        expected is Ok ==> expected->Ok_0 == expected_counterpart(
            amount as nat,
            reserve as nat,
            counter_reserve as nat,
        ),
{
    match amount.checked_mul(counter_reserve) {
        Some(product) => {
            proof {
                vstd::arithmetic::div_mod::lemma_div_nonincreasing(product as int, reserve as int);
            }
            Ok(product / reserve)
        },
        None => Err(ContractError::Overflow),
    }
}

/// The tolerance band around `expected`, or `Overflow` where its upper
/// bound exceeds 128 bits.
pub fn tolerance_band(expected: u128, tolerance: Decimal) -> (band: Result<
    (u128, u128),
    ContractError,
>)
    requires
        tolerance.is_at_most_one(),
    ensures
        band is Err <==> band_upper(expected as nat, tolerance@) > u128::MAX,
        band is Err ==> band->Err_0 == ContractError::Overflow,
        band is Ok ==> band->Ok_0.0 == band_lower(expected as nat, tolerance@) && band->Ok_0.1
            == band_upper(expected as nat, tolerance@),
{
    let below = Decimal { atomics: DECIMAL_FRACTIONAL - tolerance.atomics };
    let above = Decimal { atomics: DECIMAL_FRACTIONAL + tolerance.atomics };
    proof {
        lemma_mul_floor_bounds(expected as nat, below@);
    }
    match (mul_floor_checked(expected, below), mul_floor_checked(expected, above)) {
        (Some(lower), Some(upper)) => Ok((lower, upper)),
        _ => Err(ContractError::Overflow),
    }
}

/// The shares that a deposit mints on a pool with the given reserves and
/// supply: `Overflow` where a product exceeds 128 bits, `DepositTooSmall`
/// where no share would be minted.
pub fn checked_shares_to_mint(pool: &PoolState, amount1: u128, amount2: u128) -> (minted: Result<
    u128,
    ContractError,
>)
    requires
        pool.reserves.asset1.amount > 0,
        pool.reserves.asset2.amount > 0,
    ensures
        minted is Err <==> deposit_mint_overflows(pool@, amount1 as nat, amount2 as nat)
            || shares_to_mint(pool@, amount1 as nat, amount2 as nat) == 0,
        minted is Err ==> minted->Err_0 == (if deposit_mint_overflows(
            pool@,
            amount1 as nat,
            amount2 as nat,
        ) {
            ContractError::Overflow
        } else {
            ContractError::DepositTooSmall
        }),
        minted is Ok ==> minted->Ok_0 == shares_to_mint(pool@, amount1 as nat, amount2 as nat),
{
    let product1 = match amount1.checked_mul(pool.total_supply) {
        Some(product) => product,
        None => {
            return Err(ContractError::Overflow);
        },
    };
    let product2 = match amount2.checked_mul(pool.total_supply) {
        Some(product) => product,
        None => {
            return Err(ContractError::Overflow);
        },
    };
    let side1 = product1 / pool.reserves.asset1.amount;
    let side2 = product2 / pool.reserves.asset2.amount;
    let minted = if side1 <= side2 {
        side1
    } else {
        side2
    };
    if minted == 0 {
        return Err(ContractError::DepositTooSmall);
    }
    Ok(minted)
}

/// The instruction to mint `amount` liquidity tokens for `recipient` on the
/// pool's token ledger.
pub fn mint_liquidity_tokens(config: &Config, recipient: String, amount: u128) -> (effect: Effect)
    ensures
        effect@ == mint_effect(config@, recipient@, amount as nat),
{
    Effect::MintShares { ledger: config.lp_token_addr.clone(), to: recipient, amount }
}

/// Whether a pool can take a deposit: it holds something of both assets,
/// since the ratio of an empty reserve is undefined, and its tolerance is at
/// most one, since the band has no lower bound otherwise.
pub open spec fn deposit_admissible(pool: PoolView) -> bool {
    &&& pool.reserves.asset1.amount > 0
    &&& pool.reserves.asset2.amount > 0
    &&& pool.config.tolerance_percentage <= DECIMAL_FRACTIONAL
}

/// Adds liquidity: takes the two declared amounts into the reserves and
/// credits the sender with the shares they earn.
pub fn deposit(pool: &mut PoolState, info: MessageInfo, asset1: Coin, asset2: Coin) -> (result:
    Result<Vec<Effect>, ContractError>)
    requires
        old(pool).wf(),
        deposit_admissible(old(pool)@),
    ensures
        final(pool).wf(),
        match result {
            Ok(effects) => deposit_spec(old(pool)@, info@, asset1@, asset2@) == accepted(
                final(pool)@,
                effects_view(effects@),
            ),
            Err(error) => deposit_spec(old(pool)@, info@, asset1@, asset2@) == refused(error)
                && *final(pool) == *old(pool),
        },
{
    let ghost before = pool@;
    if !attached_funds_match(&info.funds, &asset1, &asset2) {
        return Err(ContractError::InvalidFunds);
    }
    let reserve1 = pool.reserves.asset1.amount;
    let reserve2 = pool.reserves.asset2.amount;
    let tolerance = pool.config.tolerance_percentage;

    let expected2 = match checked_expected_counterpart(asset1.amount, reserve1, reserve2) {
        Ok(expected) => expected,
        Err(error) => {
            return Err(error);
        },
    };
    let expected1 = match checked_expected_counterpart(asset2.amount, reserve2, reserve1) {
        Ok(expected) => expected,
        Err(error) => {
            return Err(error);
        },
    };
    let (lower2, upper2) = match tolerance_band(expected2, tolerance) {
        Ok(band) => band,
        Err(error) => {
            return Err(error);
        },
    };
    let (lower1, upper1) = match tolerance_band(expected1, tolerance) {
        Ok(band) => band,
        Err(error) => {
            return Err(error);
        },
    };
    assert(!deposit_ratio_overflows(before, asset1@.amount, asset2@.amount));
    if asset1.amount < lower1 || asset1.amount > upper1 {
        return Err(ContractError::InvalidDepositRatio);
    }
    if asset2.amount < lower2 || asset2.amount > upper2 {
        return Err(ContractError::InvalidDepositRatio);
    }
    assert(deposit_ratio_accepted(before, asset1@.amount, asset2@.amount));

    let minted = match checked_shares_to_mint(pool, asset1.amount, asset2.amount) {
        Ok(minted) => minted,
        Err(error) => {
            return Err(error);
        },
    };
    let new_reserve1 = match reserve1.checked_add(asset1.amount) {
        Some(sum) => sum,
        None => {
            return Err(ContractError::Overflow);
        },
    };
    let new_reserve2 = match reserve2.checked_add(asset2.amount) {
        Some(sum) => sum,
        None => {
            return Err(ContractError::Overflow);
        },
    };
    let new_supply = match pool.total_supply.checked_add(minted) {
        Some(sum) => sum,
        None => {
            return Err(ContractError::Overflow);
        },
    };
    let owned = pool.share_balances.get(&info.sender);
    proof {
        lemma_balance_within_total(before.share_balances, info.sender@);
        lemma_share_total_insert(before.share_balances, info.sender@, (owned + minted) as nat);
    }
    let effect = mint_liquidity_tokens(&pool.config, info.sender.clone(), minted);

    pool.reserves.asset1.amount = new_reserve1;
    pool.reserves.asset2.amount = new_reserve2;
    pool.total_supply = new_supply;
    pool.share_balances.set(info.sender, owned + minted);

    let effects = vec![effect];
    proof {
        let after = pool_after_deposit(
            before,
            info@.sender,
            asset1@.amount,
            asset2@.amount,
            minted as nat,
        );
        assert(pool@ =~= after);
        assert(effects_view(effects@) =~= seq![
            mint_effect(before.config, info@.sender, minted as nat),
        ]);
    }
    Ok(effects)
}

// ---------------------------------------------------------------------------
// Withdraw
// ---------------------------------------------------------------------------

/// What is paid out of `reserve` for `burned` of `total_supply` shares: the
/// exact part of the reserve that the shares stand for, rounded down once,
/// so that the pool never pays more than that part.
pub open spec fn withdraw_payout(reserve: nat, burned: nat, total_supply: nat) -> nat {
    reserve * burned / total_supply
}

/// The ledger after `sender` burned `burned` shares.
pub open spec fn pool_after_withdraw(pool: PoolView, sender: Seq<char>, burned: nat) -> PoolView {
    let reserve1 = pool.reserves.asset1.amount;
    let reserve2 = pool.reserves.asset2.amount;
    PoolView {
        reserves: PoolReservesView {
            asset1: CoinView {
                denom: pool.reserves.asset1.denom,
                amount: (reserve1 - withdraw_payout(reserve1, burned, pool.total_supply)) as nat,
            },
            asset2: CoinView {
                denom: pool.reserves.asset2.denom,
                amount: (reserve2 - withdraw_payout(reserve2, burned, pool.total_supply)) as nat,
            },
        },
        total_supply: (pool.total_supply - burned) as nat,
        share_balances: pool.share_balances.insert(
            sender,
            (balance_of(pool.share_balances, sender) - burned) as nat,
        ),
        config: pool.config,
    }
}

/// The three instructions of a withdrawal: burn the shares, then pay out
/// asset 1 and asset 2.
pub open spec fn withdraw_effects(pool: PoolView, sender: Seq<char>, burned: nat) -> Seq<
    EffectView,
> {
    seq![
        EffectView::BurnShares { ledger: pool.config.lp_token_addr, amount: burned },
        EffectView::TransferAsset {
            to: sender,
            denom: pool.reserves.asset1.denom,
            amount: withdraw_payout(pool.reserves.asset1.amount, burned, pool.total_supply),
        },
        EffectView::TransferAsset {
            to: sender,
            denom: pool.reserves.asset2.denom,
            amount: withdraw_payout(pool.reserves.asset2.amount, burned, pool.total_supply),
        },
    ]
}

/// What a withdrawal does: it is refused exactly when the sender owns fewer
/// shares than are to be burnt.
pub open spec fn withdraw_spec(pool: PoolView, sender: Seq<char>, burned: nat) -> Outcome {
    if burned > balance_of(pool.share_balances, sender) {
        refused(ContractError::WithdrawError)
    } else {
        accepted(pool_after_withdraw(pool, sender, burned), withdraw_effects(pool, sender, burned))
    }
}

/// A payout never exceeds the reserve it is taken from.
pub proof fn lemma_withdraw_payout_within_reserve(reserve: nat, burned: nat, total_supply: nat)
    requires
        burned <= total_supply,
        total_supply > 0,
    ensures
        withdraw_payout(reserve, burned, total_supply) <= reserve,
{
    lemma_mul_ratio_of_part(reserve, burned, total_supply);
}

/// What is paid out of a reserve for `burned` of `total_supply` shares.
pub fn payout(reserve: u128, burned: u128, total_supply: u128) -> (amount: u128)
    requires
        burned <= total_supply,
        total_supply > 0,
    ensures
        amount == withdraw_payout(reserve as nat, burned as nat, total_supply as nat),
        amount <= reserve,
{
    proof {
        lemma_withdraw_payout_within_reserve(reserve as nat, burned as nat, total_supply as nat);
    }
    match multiply_ratio_checked(reserve, burned, total_supply) {
        Some(amount) => amount,
        None => 0,
    }
}

/// Whether a pool can take a withdrawal: where the sender owns what is to
/// be burnt, there is a share supply, since a part of no shares is
/// undefined.
pub open spec fn withdraw_admissible(pool: PoolView, sender: Seq<char>, burned: nat) -> bool {
    burned <= balance_of(pool.share_balances, sender) ==> pool.total_supply > 0
}

/// Removes liquidity: burns shares of the sender and pays out the part of
/// both reserves that they stand for, rounded down.
pub fn withdraw(pool: &mut PoolState, info: MessageInfo, amount_to_burn: u128) -> (result: Result<
    Vec<Effect>,
    ContractError,
>)
    requires
        old(pool).wf(),
        withdraw_admissible(old(pool)@, info@.sender, amount_to_burn as nat),
    ensures
        final(pool).wf(),
        match result {
            Ok(effects) => withdraw_spec(old(pool)@, info@.sender, amount_to_burn as nat) == accepted(
                final(pool)@,
                effects_view(effects@),
            ),
            Err(error) => withdraw_spec(old(pool)@, info@.sender, amount_to_burn as nat) == refused(error)
                && *final(pool) == *old(pool),
        },
{
    let ghost before = pool@;
    let owned = pool.share_balances.get(&info.sender);
    if amount_to_burn > owned {
        return Err(ContractError::WithdrawError);
    }
    proof {
        lemma_balance_within_total(before.share_balances, info.sender@);
        lemma_share_total_insert(
            before.share_balances,
            info.sender@,
            (owned - amount_to_burn) as nat,
        );
    }
    let amount1 = payout(pool.reserves.asset1.amount, amount_to_burn, pool.total_supply);
    let amount2 = payout(pool.reserves.asset2.amount, amount_to_burn, pool.total_supply);

    let burn = Effect::BurnShares { ledger: pool.config.lp_token_addr.clone(), amount: amount_to_burn };
    let send1 = Effect::TransferAsset {
        to: info.sender.clone(),
        denom: pool.reserves.asset1.denom.clone(),
        amount: amount1,
    };
    let send2 = Effect::TransferAsset {
        to: info.sender.clone(),
        denom: pool.reserves.asset2.denom.clone(),
        amount: amount2,
    };

    pool.reserves.asset1.amount = pool.reserves.asset1.amount - amount1;
    pool.reserves.asset2.amount = pool.reserves.asset2.amount - amount2;
    pool.total_supply = pool.total_supply - amount_to_burn;
    pool.share_balances.set(info.sender, owned - amount_to_burn);

    let effects = vec![burn, send1, send2];
    proof {
        assert(pool@ =~= pool_after_withdraw(before, info@.sender, amount_to_burn as nat));
        assert(effects_view(effects@) =~= withdraw_effects(
            before,
            info@.sender,
            amount_to_burn as nat,
        ));
    }
    Ok(effects)
}

// ---------------------------------------------------------------------------
// Swap
// ---------------------------------------------------------------------------

/// The part of an offer that is kept as fee, rounded down.
pub open spec fn swap_fee(offered: nat, fee_share: nat) -> nat {
    mul_floor(offered, fee_share)
}

/// The part of an offer that enters the pool.
pub open spec fn net_offer(offered: nat, fee_share: nat) -> nat {
    (offered - swap_fee(offered, fee_share)) as nat
}

/// The reserve of the other asset after `net` entered the reserve
/// `offered_reserve`: the product of the two reserves before the swap,
/// divided by the new reserve of the offered asset and rounded down.  An
/// offer of nothing leaves the pool as it is.
pub open spec fn counter_reserve_after_swap(
    offered_reserve: nat,
    counter_reserve: nat,
    net: nat,
) -> nat {
    if net == 0 {
        counter_reserve
    } else {
        offered_reserve * counter_reserve / (offered_reserve + net)
    }
}

/// What a swap pays out of the other reserve.
pub open spec fn swap_output(offered_reserve: nat, counter_reserve: nat, net: nat) -> nat {
    (counter_reserve - counter_reserve_after_swap(offered_reserve, counter_reserve, net)) as nat
}

/// The product of the reserves, or the new reserve of the offered asset,
/// exceeds 128 bits.
pub open spec fn swap_overflows(offered_reserve: nat, counter_reserve: nat, net: nat) -> bool {
    ||| offered_reserve * counter_reserve > u128::MAX
    ||| offered_reserve + net > u128::MAX
}

/// What a swap of `offered` of asset 1 (or, with `first` false, of asset 2)
/// does.
pub open spec fn swap_leg(pool: PoolView, sender: Seq<char>, offered: nat, first: bool) -> Outcome {
    let reserve1 = pool.reserves.asset1;
    let reserve2 = pool.reserves.asset2;
    let net = net_offer(offered, pool.config.fee_share);
    let (from, to) = if first {
        (reserve1, reserve2)
    } else {
        (reserve2, reserve1)
    };
    let from_after = CoinView { denom: from.denom, amount: from.amount + net };
    let to_after = CoinView {
        denom: to.denom,
        amount: counter_reserve_after_swap(from.amount, to.amount, net),
    };
    if swap_overflows(from.amount, to.amount, net) {
        refused(ContractError::Overflow)
    } else {
        accepted(
            PoolView {
                reserves: if first {
                    PoolReservesView { asset1: from_after, asset2: to_after }
                } else {
                    PoolReservesView { asset1: to_after, asset2: from_after }
                },
                ..pool
            },
            seq![
                EffectView::TransferAsset {
                    to: sender,
                    denom: to.denom,
                    amount: swap_output(from.amount, to.amount, net),
                },
            ],
        )
    }
}

/// What a swap does: the offer is refused as `InvalidFunds` exactly when
/// its denomination is neither of the pool's.
pub open spec fn swap_spec(pool: PoolView, sender: Seq<char>, offered: CoinView) -> Outcome {
    if offered.denom == pool.reserves.asset1.denom {
        swap_leg(pool, sender, offered.amount, true)
    } else if offered.denom == pool.reserves.asset2.denom {
        swap_leg(pool, sender, offered.amount, false)
    } else {
        refused(ContractError::InvalidFunds)
    }
}

/// The rule for an offer of nothing is the rule for any other offer
/// wherever the latter is defined: with something in the offered reserve,
/// the product of the reserves divided by that reserve is the other one.
pub proof fn lemma_swap_of_nothing(offered_reserve: nat, counter_reserve: nat)
    requires
        offered_reserve > 0,
    ensures
        counter_reserve_after_swap(offered_reserve, counter_reserve, 0) == offered_reserve
            * counter_reserve / (offered_reserve + 0),
{
    vstd::arithmetic::div_mod::lemma_div_multiples_vanish(
        counter_reserve as int,
        offered_reserve as int,
    );
}

/// A swap never raises the other reserve and lowers it wherever something
/// enters the pool and the other reserve holds something; the product of
/// the reserves after it lies within one new offered reserve below the
/// product before.
pub proof fn lemma_counter_reserve_after_swap(offered_reserve: nat, counter_reserve: nat, net: nat)
    ensures
        counter_reserve_after_swap(offered_reserve, counter_reserve, net) <= counter_reserve,
        (offered_reserve + net) * counter_reserve_after_swap(offered_reserve, counter_reserve, net)
            <= offered_reserve * counter_reserve,
        net > 0 ==> offered_reserve * counter_reserve < (offered_reserve + net) * (
        counter_reserve_after_swap(offered_reserve, counter_reserve, net) + 1),
        net > 0 && counter_reserve > 0 ==> counter_reserve_after_swap(
            offered_reserve,
            counter_reserve,
            net,
        ) < counter_reserve,
{
    let k = (offered_reserve * counter_reserve) as int;
    let grown = (offered_reserve + net) as int;
    if net > 0 {
        let after = k / grown;
        vstd::arithmetic::div_mod::lemma_fundamental_div_mod(k, grown);
        vstd::arithmetic::div_mod::lemma_mod_bound(k, grown);
        assert(grown * (after + 1) == grown * after + grown) by (nonlinear_arith);
        assert(after <= counter_reserve && (counter_reserve > 0 ==> after < counter_reserve))
            by (nonlinear_arith)
            requires
                grown * after <= offered_reserve * counter_reserve,
                grown > offered_reserve,
                after >= 0,
                offered_reserve >= 0,
                counter_reserve >= 0,
        ;
    } else {
        assert((offered_reserve + 0) * counter_reserve == offered_reserve * counter_reserve);
    }
}

/// The three numbers of a swap: the new reserve of the offered asset, the
/// new reserve of the other one, and what is paid out of it.
pub fn swap_amounts(offered_reserve: u128, counter_reserve: u128, offered: u128, fee_share: Decimal)
    -> (amounts: Result<(u128, u128, u128), ContractError>)
    requires
        swap_fee(offered as nat, fee_share@) <= offered,
    ensures
        amounts is Err <==> swap_overflows(
            offered_reserve as nat,
            counter_reserve as nat,
            net_offer(offered as nat, fee_share@),
        ),
        amounts is Err ==> amounts->Err_0 == ContractError::Overflow,
        amounts is Ok ==> {
            let net = net_offer(offered as nat, fee_share@);
            &&& amounts->Ok_0.0 == offered_reserve + net
            &&& amounts->Ok_0.1 == counter_reserve_after_swap(
                offered_reserve as nat,
                counter_reserve as nat,
                net,
            )
            &&& amounts->Ok_0.2 == swap_output(offered_reserve as nat, counter_reserve as nat, net)
        },
{
    proof {
        lemma_counter_reserve_after_swap(
            offered_reserve as nat,
            counter_reserve as nat,
            net_offer(offered as nat, fee_share@),
        );
    }
    let k = match offered_reserve.checked_mul(counter_reserve) {
        Some(product) => product,
        None => {
            return Err(ContractError::Overflow);
        },
    };
    let fee = match mul_floor_checked(offered, fee_share) {
        Some(fee) => fee,
        None => 0,
    };
    let net = offered - fee;
    let grown = match offered_reserve.checked_add(net) {
        Some(sum) => sum,
        None => {
            return Err(ContractError::Overflow);
        },
    };
    let after = if net == 0 {
        counter_reserve
    } else {
        k / grown
    };
    Ok((grown, after, counter_reserve - after))
}

/// Whether a pool can take a swap: the fee does not exceed the offer, as
/// is the case with every fee share of at most one.
pub open spec fn swap_admissible(pool: PoolView, offered: nat) -> bool {
    swap_fee(offered, pool.config.fee_share) <= offered
}

/// A fee share of at most one never asks for more than was offered.
pub proof fn lemma_fee_within_offer(pool: PoolView, offered: nat)
    requires
        pool.config.fee_share <= DECIMAL_FRACTIONAL,
    ensures
        swap_admissible(pool, offered),
{
    lemma_mul_floor_bounds(offered, pool.config.fee_share);
}

/// Trades one asset of the pool for the other along the constant product
/// of the reserves; the fee is taken from what is offered.
pub fn swap(pool: &mut PoolState, info: MessageInfo, offered_asset: Coin) -> (result: Result<
    Vec<Effect>,
    ContractError,
>)
    requires
        old(pool).wf(),
        swap_admissible(old(pool)@, offered_asset@.amount),
    ensures
        final(pool).wf(),
        match result {
            Ok(effects) => swap_spec(old(pool)@, info@.sender, offered_asset@) == accepted(
                final(pool)@,
                effects_view(effects@),
            ),
            Err(error) => swap_spec(old(pool)@, info@.sender, offered_asset@) == refused(error)
                && *final(pool) == *old(pool),
        },
{
    let ghost before = pool@;
    let reserve1 = pool.reserves.asset1.amount;
    let reserve2 = pool.reserves.asset2.amount;
    let fee_share = pool.config.fee_share;
    if offered_asset.denom == pool.reserves.asset1.denom {
        let (grown, after, output) = match swap_amounts(
            reserve1,
            reserve2,
            offered_asset.amount,
            fee_share,
        ) {
            Ok(amounts) => amounts,
            Err(error) => {
                return Err(error);
            },
        };
        let send = Effect::TransferAsset {
            to: info.sender,
            denom: pool.reserves.asset2.denom.clone(),
            amount: output,
        };
        pool.reserves.asset1.amount = grown;
        pool.reserves.asset2.amount = after;
        let effects = vec![send];
        proof {
            let outcome = swap_leg(before, info@.sender, offered_asset@.amount, true);
            assert(pool@ =~= outcome->Ok_0.0);
            assert(effects_view(effects@) =~= outcome->Ok_0.1);
        }
        Ok(effects)
    } else if offered_asset.denom == pool.reserves.asset2.denom {
        let (grown, after, output) = match swap_amounts(
            reserve2,
            reserve1,
            offered_asset.amount,
            fee_share,
        ) {
            Ok(amounts) => amounts,
            Err(error) => {
                return Err(error);
            },
        };
        let send = Effect::TransferAsset {
            to: info.sender,
            denom: pool.reserves.asset1.denom.clone(),
            amount: output,
        };
        pool.reserves.asset2.amount = grown;
        pool.reserves.asset1.amount = after;
        let effects = vec![send];
        proof {
            let outcome = swap_leg(before, info@.sender, offered_asset@.amount, false);
            assert(pool@ =~= outcome->Ok_0.0);
            assert(effects_view(effects@) =~= outcome->Ok_0.1);
        }
        Ok(effects)
    } else {
        Err(ContractError::InvalidFunds)
    }
}

} // verus!

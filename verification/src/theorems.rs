//! What holds of the transitions, whatever the pool and the request.

use crate::contract::{admissible, execute_spec};
use crate::error::ContractError;
use crate::execute::{
    band_lower, band_upper, counter_reserve_after_swap, deposit_admissible,
    deposit_ratio_accepted, deposit_ratio_overflows, deposit_spec, expected_asset1,
    expected_asset2, funds_match, lemma_counter_reserve_after_swap, lemma_fee_within_offer,
    lemma_withdraw_payout_within_reserve, mint_effect, net_offer, refused, shares_for_side,
    shares_to_mint, swap_admissible, swap_fee, swap_spec, withdraw_admissible, within_band,
    withdraw_payout, withdraw_spec,
};
use crate::math::{lemma_mul_floor_bounds, DECIMAL_FRACTIONAL};
use crate::msg::{CoinView, ExecuteMsgView, MessageInfoView};
use crate::shares::{
    balance_of, lemma_balance_within_total, lemma_share_total_insert, share_total,
};
use crate::state::PoolView;
use vstd::prelude::*;

verus! {

// ---------------------------------------------------------------------------
// The share supply
// ---------------------------------------------------------------------------

/// The shares that exist but that no holder of this ledger owns.
pub open spec fn unowned_supply(pool: PoolView) -> int {
    pool.total_supply - share_total(pool.share_balances)
}

/// A request that succeeds leaves a well-formed ledger well formed, and
/// changes the share supply by exactly what it changes the holders'
/// balances by.
pub proof fn theorem_step_keeps_unowned_supply(
    pool: PoolView,
    info: MessageInfoView,
    msg: ExecuteMsgView,
)
    requires
        pool.wf(),
        execute_spec(pool, info, msg) is Ok,
    ensures
        execute_spec(pool, info, msg)->Ok_0.0.wf(),
        unowned_supply(execute_spec(pool, info, msg)->Ok_0.0) == unowned_supply(pool),
{
    let owned = balance_of(pool.share_balances, info.sender);
    lemma_balance_within_total(pool.share_balances, info.sender);
    match msg {
        ExecuteMsgView::Deposit { asset1, asset2 } => {
            let minted = shares_to_mint(pool, asset1.amount, asset2.amount);
            lemma_share_total_insert(pool.share_balances, info.sender, owned + minted);
        },
        ExecuteMsgView::Withdraw { amount_to_burn } => {
            lemma_share_total_insert(
                pool.share_balances,
                info.sender,
                (owned - amount_to_burn) as nat,
            );
        },
        ExecuteMsgView::Swap { offered_asset } => {},
    }
}

/// No request changes what was fixed when the pool was created: the
/// denominations of the two assets and the configuration.
pub proof fn theorem_step_keeps_identity(pool: PoolView, info: MessageInfoView, msg: ExecuteMsgView)
    requires
        execute_spec(pool, info, msg) is Ok,
    ensures
        ({
            let after = execute_spec(pool, info, msg)->Ok_0.0;
            &&& after.reserves.asset1.denom == pool.reserves.asset1.denom
            &&& after.reserves.asset2.denom == pool.reserves.asset2.denom
            &&& after.config == pool.config
        }),
{
}

/// Conservation on a deposit: where the holders own all shares that exist,
/// they still do after a deposit, whatever the pool holds.
pub proof fn theorem_deposit_conserves(
    pool: PoolView,
    info: MessageInfoView,
    asset1: CoinView,
    asset2: CoinView,
)
    requires
        pool.share_balances.dom().finite(),
        pool.conserved(),
        deposit_spec(pool, info, asset1, asset2) is Ok,
    ensures
        deposit_spec(pool, info, asset1, asset2)->Ok_0.0.conserved(),
        deposit_spec(pool, info, asset1, asset2)->Ok_0.0.wf(),
{
    theorem_step_keeps_unowned_supply(
        pool,
        info,
        ExecuteMsgView::Deposit { asset1, asset2 },
    );
}

/// Conservation on a withdrawal: where the holders own all shares that
/// exist, they still do after a withdrawal, whatever the pool holds.
pub proof fn theorem_withdraw_conserves(pool: PoolView, info: MessageInfoView, burned: nat)
    requires
        pool.share_balances.dom().finite(),
        pool.conserved(),
        withdraw_spec(pool, info.sender, burned) is Ok,
    ensures
        withdraw_spec(pool, info.sender, burned)->Ok_0.0.conserved(),
        withdraw_spec(pool, info.sender, burned)->Ok_0.0.wf(),
{
    theorem_step_keeps_unowned_supply(
        pool,
        info,
        ExecuteMsgView::Withdraw { amount_to_burn: burned },
    );
}

/// A configuration with fee and tolerance in `[0, 1)` stands in the way of
/// no request: with it every swap can be taken, and every deposit into two
/// non-empty reserves.
pub proof fn theorem_valid_configuration_admits(pool: PoolView, offered: nat)
    requires
        pool.config.wf(),
    ensures
        swap_admissible(pool, offered),
        pool.reserves.asset1.amount > 0 && pool.reserves.asset2.amount > 0 ==> deposit_admissible(
            pool,
        ),
{
    lemma_fee_within_offer(pool, offered);
}

/// A request as a mathematical value: who asks, with which funds, for what.
pub struct Request {
    pub info: MessageInfoView,
    pub msg: ExecuteMsgView,
}

/// The ledger after one request: a request that the pool cannot take, or
/// that is refused, changes nothing.
pub open spec fn apply(pool: PoolView, request: Request) -> PoolView {
    let outcome = execute_spec(pool, request.info, request.msg);
    if admissible(pool, request.info, request.msg) && outcome is Ok {
        outcome->Ok_0.0
    } else {
        pool
    }
}

/// A request that is refused, whatever the ledger and for whatever reason,
/// leaves every field of the ledger as it was and asks for no effect.
pub proof fn theorem_refusal_changes_nothing(pool: PoolView, request: Request)
    requires
        execute_spec(pool, request.info, request.msg) is Err,
    ensures
        apply(pool, request) == pool,
        execute_spec(pool, request.info, request.msg) == refused(
            execute_spec(pool, request.info, request.msg)->Err_0,
        ),
{
}

/// The ledger after a sequence of requests, the first one first.
pub open spec fn apply_all(pool: PoolView, requests: Seq<Request>) -> PoolView
    decreases requests.len(),
{
    if requests.len() == 0 {
        pool
    } else {
        apply(apply_all(pool, requests.drop_last()), requests.last())
    }
}

/// Conservation: where the holders of a ledger own all shares that exist,
/// they still do after every request of any sequence of deposits,
/// withdrawals and swaps.
pub proof fn theorem_conservation(pool: PoolView, requests: Seq<Request>)
    requires
        pool.wf(),
        pool.conserved(),
    ensures
        forall|n: int|
            0 <= n <= requests.len() ==> (#[trigger] apply_all(pool, requests.take(n))).wf()
                && apply_all(pool, requests.take(n)).conserved(),
{
    assert forall|n: int| 0 <= n <= requests.len() implies (#[trigger] apply_all(
        pool,
        requests.take(n),
    )).wf() && apply_all(pool, requests.take(n)).conserved() by {
        lemma_supply_after_requests(pool, requests.take(n));
    }
}

/// The shares that no holder owns stay the same through any sequence of
/// requests.
pub proof fn lemma_supply_after_requests(pool: PoolView, requests: Seq<Request>)
    requires
        pool.wf(),
    ensures
        apply_all(pool, requests).wf(),
        unowned_supply(apply_all(pool, requests)) == unowned_supply(pool),
    decreases requests.len(),
{
    if requests.len() > 0 {
        lemma_supply_after_requests(pool, requests.drop_last());
        let before = apply_all(pool, requests.drop_last());
        let request = requests.last();
        if admissible(before, request.info, request.msg) && execute_spec(
            before,
            request.info,
            request.msg,
        ) is Ok {
            theorem_step_keeps_unowned_supply(before, request.info, request.msg);
        }
    }
}

// ---------------------------------------------------------------------------
// Nothing is taken that is not there
// ---------------------------------------------------------------------------

/// A deposit that is accepted only adds: to both reserves what was
/// deposited, and to the supply and the sender's balance the shares minted,
/// of which there is at least one.
pub proof fn theorem_deposit_amounts(
    pool: PoolView,
    info: MessageInfoView,
    asset1: CoinView,
    asset2: CoinView,
)
    requires
        deposit_spec(pool, info, asset1, asset2) is Ok,
    ensures
        ({
            let after = deposit_spec(pool, info, asset1, asset2)->Ok_0.0;
            let minted = shares_to_mint(pool, asset1.amount, asset2.amount);
            &&& minted > 0
            &&& after.reserves.asset1.amount == pool.reserves.asset1.amount + asset1.amount
            &&& after.reserves.asset2.amount == pool.reserves.asset2.amount + asset2.amount
            &&& after.total_supply == pool.total_supply + minted
            &&& balance_of(after.share_balances, info.sender) == balance_of(
                pool.share_balances,
                info.sender,
            ) + minted
            &&& forall|other: Seq<char>|
                other != info.sender ==> balance_of(after.share_balances, other) == balance_of(
                    pool.share_balances,
                    other,
                )
        }),
{
}

/// Non-negativity of a withdrawal: one that is accepted takes from the
/// supply and from the sender's balance the shares burnt, and from each
/// reserve what it pays out, and none of these differences is negative.
pub proof fn theorem_withdraw_amounts(pool: PoolView, sender: Seq<char>, burned: nat)
    requires
        pool.wf(),
        withdraw_admissible(pool, sender, burned),
        withdraw_spec(pool, sender, burned) is Ok,
    ensures
        ({
            let after = withdraw_spec(pool, sender, burned)->Ok_0.0;
            let reserve1 = pool.reserves.asset1.amount;
            let reserve2 = pool.reserves.asset2.amount;
            &&& after.reserves.asset1.amount == reserve1 - withdraw_payout(
                reserve1,
                burned,
                pool.total_supply,
            )
            &&& after.reserves.asset2.amount == reserve2 - withdraw_payout(
                reserve2,
                burned,
                pool.total_supply,
            )
            &&& after.total_supply == pool.total_supply - burned
            &&& balance_of(after.share_balances, sender) == balance_of(pool.share_balances, sender)
                - burned
            &&& forall|other: Seq<char>|
                other != sender ==> balance_of(after.share_balances, other) == balance_of(
                    pool.share_balances,
                    other,
                )
        }),
{
    lemma_balance_within_total(pool.share_balances, sender);
    lemma_withdraw_payout_within_reserve(pool.reserves.asset1.amount, burned, pool.total_supply);
    lemma_withdraw_payout_within_reserve(pool.reserves.asset2.amount, burned, pool.total_supply);
}

/// Non-negativity of a swap: one that is accepted adds to the reserve of
/// the offered asset the offer less the fee, takes from the other reserve
/// what it pays out, and neither difference is negative.  Shares are left
/// alone.  An offer of which nothing enters the pool is paid nothing; any
/// other offer is paid something wherever the other reserve holds anything.
pub proof fn theorem_swap_amounts(pool: PoolView, sender: Seq<char>, offered: CoinView)
    requires
        swap_admissible(pool, offered.amount),
        swap_spec(pool, sender, offered) is Ok,
    ensures
        ({
            let after = swap_spec(pool, sender, offered)->Ok_0.0;
            let effects = swap_spec(pool, sender, offered)->Ok_0.1;
            let fee = swap_fee(offered.amount, pool.config.fee_share);
            let reserve1 = pool.reserves.asset1.amount;
            let reserve2 = pool.reserves.asset2.amount;
            &&& effects.len() == 1
            &&& effects[0] is TransferAsset
            &&& if offered.denom == pool.reserves.asset1.denom {
                &&& after.reserves.asset1.amount == reserve1 + (offered.amount - fee)
                &&& after.reserves.asset2.amount == reserve2 - effects[0]->TransferAsset_amount
            } else {
                &&& after.reserves.asset2.amount == reserve2 + (offered.amount - fee)
                &&& after.reserves.asset1.amount == reserve1 - effects[0]->TransferAsset_amount
            }
            &&& offered.amount - fee >= 0
            &&& after.total_supply == pool.total_supply
            &&& after.share_balances == pool.share_balances
        }),
        ({
            let paid = swap_spec(pool, sender, offered)->Ok_0.1[0]->TransferAsset_amount;
            let counter_reserve = if offered.denom == pool.reserves.asset1.denom {
                pool.reserves.asset2.amount
            } else {
                pool.reserves.asset1.amount
            };
            let net = net_offer(offered.amount, pool.config.fee_share);
            &&& net == 0 ==> paid == 0
            &&& net > 0 && counter_reserve > 0 ==> paid > 0
        }),
{
    let net = net_offer(offered.amount, pool.config.fee_share);
    lemma_counter_reserve_after_swap(
        pool.reserves.asset1.amount,
        pool.reserves.asset2.amount,
        net,
    );
    lemma_counter_reserve_after_swap(
        pool.reserves.asset2.amount,
        pool.reserves.asset1.amount,
        net,
    );
}

// ---------------------------------------------------------------------------
// The product of the reserves
// ---------------------------------------------------------------------------

/// A swap moves the product of the reserves by rounding alone: the product
/// after it is at most the product before, and falls short of it by less
/// than the new reserve of the offered asset.
pub proof fn theorem_swap_product_within_rounding(
    pool: PoolView,
    sender: Seq<char>,
    offered: CoinView,
)
    requires
        swap_spec(pool, sender, offered) is Ok,
    ensures
        ({
            let after = swap_spec(pool, sender, offered)->Ok_0.0;
            let grown = if offered.denom == pool.reserves.asset1.denom {
                after.reserves.asset1.amount
            } else {
                after.reserves.asset2.amount
            };
            &&& after.invariant_k() <= pool.invariant_k()
            &&& net_offer(offered.amount, pool.config.fee_share) > 0 ==> pool.invariant_k()
                < after.invariant_k() + grown
            &&& net_offer(offered.amount, pool.config.fee_share) == 0 ==> after == pool
        }),
{
    let net = net_offer(offered.amount, pool.config.fee_share);
    let reserve1 = pool.reserves.asset1.amount;
    let reserve2 = pool.reserves.asset2.amount;
    let after = swap_spec(pool, sender, offered)->Ok_0.0;
    if offered.denom == pool.reserves.asset1.denom {
        lemma_counter_reserve_after_swap(reserve1, reserve2, net);
        let counter = counter_reserve_after_swap(reserve1, reserve2, net);
        assert((reserve1 + net) * (counter + 1) == (reserve1 + net) * counter + (reserve1 + net))
            by (nonlinear_arith);
    } else {
        lemma_counter_reserve_after_swap(reserve2, reserve1, net);
        let counter = counter_reserve_after_swap(reserve2, reserve1, net);
        assert((reserve2 + net) * (counter + 1) == (reserve2 + net) * counter + (reserve2 + net))
            by (nonlinear_arith);
        assert(counter * (reserve2 + net) == (reserve2 + net) * counter) by (nonlinear_arith);
        assert(reserve1 * reserve2 == reserve2 * reserve1) by (nonlinear_arith);
    }
    if net == 0 {
        assert(after =~= pool);
    }
}

/// Where the new reserve of the offered asset divides the product of the
/// reserves, a swap does not lower the product: it keeps it.
pub proof fn theorem_swap_keeps_product_when_exact(
    pool: PoolView,
    sender: Seq<char>,
    offered: CoinView,
)
    requires
        swap_spec(pool, sender, offered) is Ok,
        ({
            let net = net_offer(offered.amount, pool.config.fee_share);
            let offered_reserve = if offered.denom == pool.reserves.asset1.denom {
                pool.reserves.asset1.amount
            } else {
                pool.reserves.asset2.amount
            };
            net > 0 ==> pool.invariant_k() % (offered_reserve + net) == 0
        }),
    ensures
        swap_spec(pool, sender, offered)->Ok_0.0.invariant_k() >= pool.invariant_k(),
        swap_spec(pool, sender, offered)->Ok_0.0.invariant_k() == pool.invariant_k(),
{
    let net = net_offer(offered.amount, pool.config.fee_share);
    let reserve1 = pool.reserves.asset1.amount;
    let reserve2 = pool.reserves.asset2.amount;
    theorem_swap_product_within_rounding(pool, sender, offered);
    if net > 0 {
        if offered.denom == pool.reserves.asset1.denom {
            let grown = (reserve1 + net) as int;
            vstd::arithmetic::div_mod::lemma_fundamental_div_mod(
                (reserve1 * reserve2) as int,
                grown,
            );
        } else {
            let grown = (reserve2 + net) as int;
            assert(reserve1 * reserve2 == reserve2 * reserve1) by (nonlinear_arith);
            vstd::arithmetic::div_mod::lemma_fundamental_div_mod(
                (reserve2 * reserve1) as int,
                grown,
            );
            let counter = counter_reserve_after_swap(reserve2, reserve1, net);
            assert(counter * (reserve2 + net) == (reserve2 + net) * counter) by (nonlinear_arith);
        }
    }
}

// ---------------------------------------------------------------------------
// Deposits
// ---------------------------------------------------------------------------

/// Two quotients of the same ratio have the same integer part.
pub proof fn lemma_same_ratio_same_quotient(x: nat, d: nat, y: nat, e: nat)
    requires
        d > 0,
        e > 0,
        x * e == y * d,
    ensures
        x / d == y / e,
{
    let q = (x / d) as int;
    let r = (x % d) as int;
    vstd::arithmetic::div_mod::lemma_fundamental_div_mod(x as int, d as int);
    vstd::arithmetic::div_mod::lemma_mod_bound(x as int, d as int);
    assert(x == d * q + r);
    let rest = y - q * e;
    assert(0 <= rest < e) by (nonlinear_arith)
        requires
            x == d * q + r,
            0 <= r < d,
            x * e == y * d,
            rest == y - q * e,
            d > 0,
            e > 0,
    {
        assert(y * d == (d * q + r) * e);
        assert((d * q + r) * e == d * (q * e) + r * e);
        assert(d * rest == r * e);
        assert(r * e < d * e);
    }
    vstd::arithmetic::div_mod::lemma_fundamental_div_mod_converse(y as int, e as int, q, rest);
}

/// Fairness: a deposit of exactly the pool's ratio is never refused for
/// its ratio, earns the same number of shares on both sides, and where it
/// succeeds mints the supply times the deposited part of a reserve, rounded
/// down.
pub proof fn theorem_proportional_deposit(
    pool: PoolView,
    info: MessageInfoView,
    asset1: CoinView,
    asset2: CoinView,
)
    requires
        deposit_admissible(pool),
        asset1.amount * pool.reserves.asset2.amount == asset2.amount * pool.reserves.asset1.amount,
    ensures
        shares_to_mint(pool, asset1.amount, asset2.amount) == pool.total_supply * asset1.amount
            / pool.reserves.asset1.amount,
        shares_to_mint(pool, asset1.amount, asset2.amount) == pool.total_supply * asset2.amount
            / pool.reserves.asset2.amount,
        deposit_ratio_accepted(pool, asset1.amount, asset2.amount),
        deposit_spec(pool, info, asset1, asset2) != refused(ContractError::InvalidDepositRatio),
        deposit_spec(pool, info, asset1, asset2) is Ok ==> deposit_spec(
            pool,
            info,
            asset1,
            asset2,
        )->Ok_0.1 == seq![
            mint_effect(
                pool.config,
                info.sender,
                pool.total_supply * asset1.amount / pool.reserves.asset1.amount,
            ),
        ],
{
    let a1 = asset1.amount;
    let a2 = asset2.amount;
    let r1 = pool.reserves.asset1.amount;
    let r2 = pool.reserves.asset2.amount;
    let supply = pool.total_supply;
    let tolerance = pool.config.tolerance_percentage;
    assert((a1 * supply) * r2 == (a2 * supply) * r1) by (nonlinear_arith)
        requires
            a1 * r2 == a2 * r1,
    ;
    lemma_same_ratio_same_quotient(a1 * supply, r1, a2 * supply, r2);
    assert(a1 * supply == supply * a1 && a2 * supply == supply * a2) by (nonlinear_arith);
    assert(shares_for_side(a1, supply, r1) == shares_for_side(a2, supply, r2));

    assert(expected_asset2(pool, a1) == a2) by {
        assert(a2 * r1 == r1 * a2) by (nonlinear_arith);
        vstd::arithmetic::div_mod::lemma_div_multiples_vanish(a2 as int, r1 as int);
    }
    assert(expected_asset1(pool, a2) == a1) by {
        assert(a1 * r2 == r2 * a1) by (nonlinear_arith);
        vstd::arithmetic::div_mod::lemma_div_multiples_vanish(a1 as int, r2 as int);
    }
    lemma_mul_floor_bounds(a1, (DECIMAL_FRACTIONAL - tolerance) as nat);
    lemma_mul_floor_bounds(a1, (DECIMAL_FRACTIONAL + tolerance) as nat);
    lemma_mul_floor_bounds(a2, (DECIMAL_FRACTIONAL - tolerance) as nat);
    lemma_mul_floor_bounds(a2, (DECIMAL_FRACTIONAL + tolerance) as nat);
}

/// Round trip: who deposits and at once burns the shares that the deposit
/// minted is paid back no more of either asset than was deposited.
pub proof fn theorem_withdraw_after_deposit(
    pool: PoolView,
    info: MessageInfoView,
    asset1: CoinView,
    asset2: CoinView,
)
    requires
        deposit_admissible(pool),
        deposit_spec(pool, info, asset1, asset2) is Ok,
    ensures
        ({
            let minted = shares_to_mint(pool, asset1.amount, asset2.amount);
            let funded = deposit_spec(pool, info, asset1, asset2)->Ok_0.0;
            &&& funded.total_supply > 0
            &&& withdraw_spec(funded, info.sender, minted) is Ok
            &&& withdraw_payout(funded.reserves.asset1.amount, minted, funded.total_supply)
                <= asset1.amount
            &&& withdraw_payout(funded.reserves.asset2.amount, minted, funded.total_supply)
                <= asset2.amount
            &&& withdraw_spec(funded, info.sender, minted)->Ok_0.1[1]->TransferAsset_amount
                <= asset1.amount
            &&& withdraw_spec(funded, info.sender, minted)->Ok_0.1[2]->TransferAsset_amount
                <= asset2.amount
        }),
{
    let minted = shares_to_mint(pool, asset1.amount, asset2.amount);
    let supply = pool.total_supply;
    lemma_shares_cost_their_part(asset1.amount, supply, pool.reserves.asset1.amount, minted);
    lemma_shares_cost_their_part(asset2.amount, supply, pool.reserves.asset2.amount, minted);
    lemma_round_trip_side(asset1.amount, pool.reserves.asset1.amount, supply, minted);
    lemma_round_trip_side(asset2.amount, pool.reserves.asset2.amount, supply, minted);
}

/// Shares earned on one side stand for no more of the reserve than was
/// deposited on that side.
pub proof fn lemma_shares_cost_their_part(amount: nat, supply: nat, reserve: nat, minted: nat)
    requires
        reserve > 0,
        minted <= shares_for_side(amount, supply, reserve),
    ensures
        minted * reserve <= amount * supply,
{
    let earned = shares_for_side(amount, supply, reserve);
    vstd::arithmetic::div_mod::lemma_fundamental_div_mod((amount * supply) as int, reserve as int);
    vstd::arithmetic::div_mod::lemma_mod_bound((amount * supply) as int, reserve as int);
    assert(minted * reserve <= reserve * earned) by (nonlinear_arith)
        requires
            minted <= earned,
            reserve > 0,
    ;
}

/// Burning `minted` shares right after they were minted for `amount` pays
/// at most `amount`.
pub proof fn lemma_round_trip_side(amount: nat, reserve: nat, supply: nat, minted: nat)
    requires
        minted > 0,
        minted * reserve <= amount * supply,
    ensures
        withdraw_payout(reserve + amount, minted, supply + minted) <= amount,
{
    let whole = (supply + minted) as int;
    assert((reserve + amount) * minted <= whole * amount) by (nonlinear_arith)
        requires
            minted * reserve <= amount * supply,
            whole == supply + minted,
    ;
    vstd::arithmetic::div_mod::lemma_div_is_ordered(
        ((reserve + amount) * minted) as int,
        whole * amount,
        whole,
    );
    vstd::arithmetic::div_mod::lemma_div_multiples_vanish(amount as int, whole);
}

/// The tolerance band includes both of its bounds and nothing beyond them.
pub proof fn theorem_band_bounds(expected: nat, tolerance: nat)
    requires
        tolerance <= DECIMAL_FRACTIONAL,
    ensures
        within_band(band_lower(expected, tolerance), expected, tolerance),
        within_band(band_upper(expected, tolerance), expected, tolerance),
        within_band(expected, expected, tolerance),
        !within_band(band_upper(expected, tolerance) + 1, expected, tolerance),
        band_lower(expected, tolerance) > 0 ==> !within_band(
            (band_lower(expected, tolerance) - 1) as nat,
            expected,
            tolerance,
        ),
{
    lemma_mul_floor_bounds(expected, (DECIMAL_FRACTIONAL - tolerance) as nat);
    lemma_mul_floor_bounds(expected, (DECIMAL_FRACTIONAL + tolerance) as nat);
}

/// A deposit with the right funds is refused for its ratio exactly when an
/// amount lies outside its band, provided that the bands can be computed.
pub proof fn theorem_deposit_ratio_decides(
    pool: PoolView,
    info: MessageInfoView,
    asset1: CoinView,
    asset2: CoinView,
)
    requires
        funds_match(info.funds, asset1, asset2),
        !deposit_ratio_overflows(pool, asset1.amount, asset2.amount),
    ensures
        deposit_spec(pool, info, asset1, asset2) == refused(ContractError::InvalidDepositRatio)
            <==> !(within_band(
            asset1.amount,
            expected_asset1(pool, asset2.amount),
            pool.config.tolerance_percentage,
        ) && within_band(
            asset2.amount,
            expected_asset2(pool, asset1.amount),
            pool.config.tolerance_percentage,
        )),
{
}

/// Tolerance boundary: of a deposit with the right funds whose bands can
/// be computed, an amount on a bound of its band is accepted where the
/// other amount lies in its own band, and an amount one unit beyond a bound
/// is refused as `InvalidDepositRatio`.
pub proof fn theorem_deposit_at_band_bound(
    pool: PoolView,
    info: MessageInfoView,
    asset1: CoinView,
    asset2: CoinView,
)
    requires
        pool.config.tolerance_percentage <= DECIMAL_FRACTIONAL,
        funds_match(info.funds, asset1, asset2),
        !deposit_ratio_overflows(pool, asset1.amount, asset2.amount),
    ensures
        ({
            let tolerance = pool.config.tolerance_percentage;
            let expected1 = expected_asset1(pool, asset2.amount);
            let expected2 = expected_asset2(pool, asset1.amount);
            let refusal = refused(ContractError::InvalidDepositRatio);
            &&& (asset2.amount == band_upper(expected2, tolerance) || asset2.amount == band_lower(
                expected2,
                tolerance,
            )) && within_band(asset1.amount, expected1, tolerance) ==> deposit_spec(
                pool,
                info,
                asset1,
                asset2,
            ) != refusal
            &&& (asset1.amount == band_upper(expected1, tolerance) || asset1.amount == band_lower(
                expected1,
                tolerance,
            )) && within_band(asset2.amount, expected2, tolerance) ==> deposit_spec(
                pool,
                info,
                asset1,
                asset2,
            ) != refusal
            &&& (asset2.amount == band_upper(expected2, tolerance) + 1 || asset2.amount + 1
                == band_lower(expected2, tolerance)) ==> deposit_spec(pool, info, asset1, asset2)
                == refusal
            &&& (asset1.amount == band_upper(expected1, tolerance) + 1 || asset1.amount + 1
                == band_lower(expected1, tolerance)) ==> deposit_spec(pool, info, asset1, asset2)
                == refusal
        }),
{
    let tolerance = pool.config.tolerance_percentage;
    theorem_band_bounds(expected_asset1(pool, asset2.amount), tolerance);
    theorem_band_bounds(expected_asset2(pool, asset1.amount), tolerance);
}

} // verus!

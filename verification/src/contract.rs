use crate::error::ContractError;
use crate::execute::{
    accepted, deposit, deposit_admissible, deposit_spec, refused, swap, swap_admissible, swap_spec,
    withdraw, withdraw_admissible, withdraw_spec, Outcome,
};
use crate::instantiate::{set_up_contract, set_up_spec};
use crate::math::{mul_floor_checked, DECIMAL_FRACTIONAL};
use crate::msg::{
    effects_view, Effect, ExecuteMsg, ExecuteMsgView, InstantiateMsg, MessageInfo,
    MessageInfoView, QueryMsg, QueryResponse,
};
use crate::query::{query_config, query_reserves, query_user_share};
use crate::shares::balance_of;
use crate::state::{PoolState, PoolView};
use vstd::prelude::*;

verus! {

/// Whether the pool can take the request at all: see
/// [`deposit_admissible`], [`withdraw_admissible`] and [`swap_admissible`].
pub open spec fn admissible(pool: PoolView, info: MessageInfoView, msg: ExecuteMsgView) -> bool {
    match msg {
        ExecuteMsgView::Deposit { .. } => deposit_admissible(pool),
        ExecuteMsgView::Withdraw { amount_to_burn } => withdraw_admissible(
            pool,
            info.sender,
            amount_to_burn,
        ),
        ExecuteMsgView::Swap { offered_asset } => swap_admissible(pool, offered_asset.amount),
    }
}

/// Whether the pool can take the request: see [`admissible`].
pub fn is_admissible(pool: &PoolState, info: &MessageInfo, msg: &ExecuteMsg) -> (ok: bool)
    ensures
        ok == admissible(pool@, info@, msg@),
{
    match msg {
        ExecuteMsg::Deposit { .. } => pool.reserves.asset1.amount > 0
            && pool.reserves.asset2.amount > 0 && pool.config.tolerance_percentage.atomics
            <= DECIMAL_FRACTIONAL,
        ExecuteMsg::Withdraw { amount_to_burn } => *amount_to_burn > pool.share_balances.get(
            &info.sender,
        ) || pool.total_supply > 0,
        ExecuteMsg::Swap { offered_asset } => match mul_floor_checked(
            offered_asset.amount,
            pool.config.fee_share,
        ) {
            Some(fee) => fee <= offered_asset.amount,
            None => false,
        },
    }
}

/// What a request does to the pool: what the transition that it names does.
pub open spec fn execute_spec(pool: PoolView, info: MessageInfoView, msg: ExecuteMsgView)
    -> Outcome {
    match msg {
        ExecuteMsgView::Deposit { asset1, asset2 } => deposit_spec(pool, info, asset1, asset2),
        ExecuteMsgView::Withdraw { amount_to_burn } => withdraw_spec(
            pool,
            info.sender,
            amount_to_burn,
        ),
        ExecuteMsgView::Swap { offered_asset } => swap_spec(pool, info.sender, offered_asset),
    }
}

/// Creates the ledger of a pool.
pub fn instantiate(info: MessageInfo, msg: InstantiateMsg) -> (result: Result<
    PoolState,
    ContractError,
>)
    ensures
        match set_up_spec(info@, msg@) {
            Ok(pool) => result is Ok && result->Ok_0@ == pool,
            Err(error) => result is Err && result->Err_0 == error,
        },
        result is Ok ==> result->Ok_0.wf(),
{
    set_up_contract(info, msg)
}

/// Carries out one request on the pool.
pub fn execute(pool: &mut PoolState, info: MessageInfo, msg: ExecuteMsg) -> (result: Result<
    Vec<Effect>,
    ContractError,
>)
    requires
        old(pool).wf(),
        admissible(old(pool)@, info@, msg@),
    ensures
        final(pool).wf(),
        match result {
            Ok(effects) => execute_spec(old(pool)@, info@, msg@) == accepted(
                final(pool)@,
                effects_view(effects@),
            ),
            Err(error) => execute_spec(old(pool)@, info@, msg@) == refused(error)
                && *final(pool) == *old(pool),
        },
{
    match msg {
        ExecuteMsg::Deposit { asset1, asset2 } => deposit(pool, info, asset1, asset2),
        ExecuteMsg::Withdraw { amount_to_burn } => withdraw(pool, info, amount_to_burn),
        ExecuteMsg::Swap { offered_asset } => swap(pool, info, offered_asset),
    }
}

/// Carries out one request where the ledger is well formed and can take
/// it, and otherwise does nothing and says so with `None`.
pub fn try_execute(pool: &mut PoolState, info: MessageInfo, msg: ExecuteMsg) -> (result: Option<
    Result<Vec<Effect>, ContractError>,
>)
    ensures
        result is Some <==> old(pool).wf() && admissible(old(pool)@, info@, msg@),
        result is None ==> *final(pool) == *old(pool),
        result is Some ==> final(pool).wf(),
        match result {
            Some(Ok(effects)) => execute_spec(old(pool)@, info@, msg@) == accepted(
                final(pool)@,
                effects_view(effects@),
            ),
            Some(Err(error)) => execute_spec(old(pool)@, info@, msg@) == refused(error)
                && *final(pool) == *old(pool),
            None => true,
        },
{
    if pool.is_well_formed() && is_admissible(pool, &info, &msg) {
        Some(execute(pool, info, msg))
    } else {
        None
    }
}

/// Answers one query on the pool.
pub fn query(pool: &PoolState, msg: QueryMsg) -> (response: QueryResponse)
    ensures
        match msg {
            QueryMsg::GetReserves {  } => response matches QueryResponse::Reserves(reserves)
                && reserves.asset1_reserve == pool@.reserves.asset1.amount
                && reserves.asset2_reserve == pool@.reserves.asset2.amount,
            QueryMsg::GetUserShare { user } => response matches QueryResponse::UserShare(share)
                && share.user_share == balance_of(pool@.share_balances, user@),
            QueryMsg::GetConfig {  } => response == QueryResponse::Config(pool.config),
        },
{
    match msg {
        QueryMsg::GetReserves {  } => QueryResponse::Reserves(query_reserves(pool)),
        QueryMsg::GetUserShare { user } => QueryResponse::UserShare(query_user_share(pool, &user)),
        QueryMsg::GetConfig {  } => QueryResponse::Config(query_config(pool)),
    }
}

} // verus!

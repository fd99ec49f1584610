use crate::error::ContractError;
use crate::msg::{coins_view, Coin, InstantiateMsg, InstantiateMsgView, MessageInfo, MessageInfoView};
use crate::shares::ShareBalances;
use crate::state::{PoolReserves, PoolReservesView, PoolState, PoolView};
use vstd::prelude::*;

verus! {

/// One of the two initial reserves would be empty.
pub open spec fn funding_is_zero(msg: InstantiateMsgView) -> bool {
    msg.initial_funding_token1.amount == 0 || msg.initial_funding_token2.amount == 0
}

/// Both initial amounts are among the attached funds.
pub open spec fn funding_attached(info: MessageInfoView, msg: InstantiateMsgView) -> bool {
    info.funds.contains(msg.initial_funding_token1) && info.funds.contains(
        msg.initial_funding_token2,
    )
}

/// The ledger of a new pool: the two initial amounts as reserves, the given
/// share supply, and no holder yet.
pub open spec fn initial_pool(msg: InstantiateMsgView) -> PoolView {
    PoolView {
        reserves: PoolReservesView {
            asset1: msg.initial_funding_token1,
            asset2: msg.initial_funding_token2,
        },
        total_supply: msg.initial_lp_token_supply,
        share_balances: Map::empty(),
        config: msg.contract_config,
    }
}

/// What setting up a pool yields.
pub open spec fn set_up_spec(info: MessageInfoView, msg: InstantiateMsgView) -> Result<
    PoolView,
    ContractError,
> {
    if funding_is_zero(msg) {
        Err(ContractError::InvalidZeroAmount)
    } else if !funding_attached(info, msg) {
        Err(ContractError::InvalidInitialFunds)
    } else {
        Ok(initial_pool(msg))
    }
}

/// Refuses a set-up that would leave a reserve empty.
pub fn ensure_nonzero_funding(msg: &InstantiateMsg) -> (result: Result<(), ContractError>)
    ensures
        result is Err <==> funding_is_zero(msg@),
        result is Err ==> result->Err_0 == ContractError::InvalidZeroAmount,
{
    if msg.initial_funding_token1.amount == 0 || msg.initial_funding_token2.amount == 0 {
        return Err(ContractError::InvalidZeroAmount);
    }
    Ok(())
}

/// Whether `coin` is among `funds`, with the same denomination and amount.
pub fn funds_include(funds: &Vec<Coin>, coin: &Coin) -> (found: bool)
    ensures
        found == coins_view(funds@).contains(coin@),
{
    let mut i: usize = 0;
    while i < funds.len()
        invariant
            i <= funds.len(),
            forall|j: int| 0 <= j < i ==> coins_view(funds@)[j] != coin@,
        decreases funds.len() - i,
    {
        if funds[i].same_as(coin) {
            assert(coins_view(funds@)[i as int] == coin@);
            return true;
        }
        i = i + 1;
    }
    false
}

/// Creates the ledger of a pool from its initial funding.  The
/// configuration is taken as it comes.
pub fn set_up_contract(info: MessageInfo, msg: InstantiateMsg) -> (result: Result<
    PoolState,
    ContractError,
>)
    ensures
        match set_up_spec(info@, msg@) {
            Ok(pool) => result is Ok && result->Ok_0@ == pool,
            Err(error) => result is Err && result->Err_0 == error,
        },
        result is Ok ==> result->Ok_0.wf(),
{
    match ensure_nonzero_funding(&msg) {
        Ok(()) => {},
        Err(error) => {
            return Err(error);
        },
    }
    if !funds_include(&info.funds, &msg.initial_funding_token1) || !funds_include(
        &info.funds,
        &msg.initial_funding_token2,
    ) {
        return Err(ContractError::InvalidInitialFunds);
    }
    let pool = PoolState {
        reserves: PoolReserves {
            asset1: msg.initial_funding_token1,
            asset2: msg.initial_funding_token2,
        },
        total_supply: msg.initial_lp_token_supply,
        share_balances: ShareBalances::new(),
        config: msg.contract_config,
    };
    assert(pool@ =~= initial_pool(msg@));
    Ok(pool)
}

} // verus!

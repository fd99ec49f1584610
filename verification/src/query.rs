use crate::msg::{Config, ReservesResponse, UserShareResponse};
use crate::shares::balance_of;
use crate::state::PoolState;
use vstd::prelude::*;

verus! {

/// The amounts of the two reserves.
pub fn query_reserves(pool: &PoolState) -> (response: ReservesResponse)
    ensures
        response.asset1_reserve == pool@.reserves.asset1.amount,
        response.asset2_reserve == pool@.reserves.asset2.amount,
{
    ReservesResponse {
        asset1_reserve: pool.reserves.asset1.amount,
        asset2_reserve: pool.reserves.asset2.amount,
    }
}

/// The shares that `user` owns: zero for a holder the ledger does not know.
pub fn query_user_share(pool: &PoolState, user: &String) -> (response: UserShareResponse)
    ensures
        response.user_share == balance_of(pool@.share_balances, user@),
{
    UserShareResponse { user_share: pool.share_balances.get(user) }
}

/// The configuration that the pool was created with.
pub fn query_config(pool: &PoolState) -> (config: Config)
    ensures
        config == pool.config,
{
    pool.config.clone()
}

} // verus!

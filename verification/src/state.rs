use crate::msg::{Coin, CoinView, Config, ConfigView};
use crate::shares::{share_total, ShareBalances};
use vstd::prelude::*;

verus! {

/// What the pool holds of each of its two assets.
#[derive(Debug, PartialEq, Eq)]
pub struct PoolReserves {
    pub asset1: Coin,
    pub asset2: Coin,
}

/// [`PoolReserves`] as a mathematical value.
#[verifier::ext_equal]
pub struct PoolReservesView {
    pub asset1: CoinView,
    pub asset2: CoinView,
}

impl View for PoolReserves {
    type V = PoolReservesView;

    open spec fn view(&self) -> PoolReservesView {
        PoolReservesView { asset1: self.asset1@, asset2: self.asset2@ }
    }
}

/// The whole ledger of one pool.
#[derive(Debug)]
pub struct PoolState {
    pub reserves: PoolReserves,
    /// All liquidity shares that exist.
    pub total_supply: u128,
    /// The shares that each holder acquired from this pool.
    pub share_balances: ShareBalances,
    pub config: Config,
}

/// A [`PoolState`] as a mathematical value: unbounded amounts, and the
/// share ledger as a map from holder to balance.
#[verifier::ext_equal]
pub struct PoolView {
    pub reserves: PoolReservesView,
    pub total_supply: nat,
    pub share_balances: Map<Seq<char>, nat>,
    pub config: ConfigView,
}

impl PoolView {
    /// The holders together own no more shares than exist.
    pub open spec fn wf(self) -> bool {
        &&& self.share_balances.dom().finite()
        &&& share_total(self.share_balances) <= self.total_supply
    }

    /// Every share that exists is owned by a holder of this ledger.
    pub open spec fn conserved(self) -> bool {
        share_total(self.share_balances) == self.total_supply
    }

    /// The product of the two reserves.
    pub open spec fn invariant_k(self) -> nat {
        self.reserves.asset1.amount * self.reserves.asset2.amount
    }
}

impl View for PoolState {
    type V = PoolView;

    open spec fn view(&self) -> PoolView {
        PoolView {
            reserves: self.reserves@,
            total_supply: self.total_supply as nat,
            share_balances: self.share_balances@,
            config: self.config@,
        }
    }
}

impl PoolState {
    /// See [`PoolView::wf`].
    pub open spec fn wf(&self) -> bool {
        self@.wf()
    }

    /// Whether the ledger is well formed.
    pub fn is_well_formed(&self) -> (ok: bool)
        ensures
            ok == self.wf(),
    {
        proof {
            self.share_balances.lemma_finite();
        }
        match self.share_balances.checked_total() {
            Some(owned) => owned <= self.total_supply,
            None => false,
        }
    }
}

} // verus!

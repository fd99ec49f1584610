use crate::math::Decimal;
use vstd::prelude::*;

verus! {

/// An amount of one asset, named by its denomination.
#[derive(Debug, PartialEq, Eq)]
pub struct Coin {
    pub denom: String,
    pub amount: u128,
}

/// A [`Coin`] as a mathematical value.
#[verifier::ext_equal]
pub struct CoinView {
    pub denom: Seq<char>,
    pub amount: nat,
}

impl View for Coin {
    type V = CoinView;

    open spec fn view(&self) -> CoinView {
        CoinView { denom: self.denom@, amount: self.amount as nat }
    }
}

impl Clone for Coin {
    fn clone(&self) -> (copy: Coin)
        ensures
            copy == *self,
    {
        Coin { denom: self.denom.clone(), amount: self.amount }
    }
}

impl Coin {
    /// Whether two coins have the same denomination and amount.
    pub fn same_as(&self, other: &Coin) -> (same: bool)
        ensures
            same == (self@ == other@),
    {
        self.denom == other.denom && self.amount == other.amount
    }
}

/// The coin of `amount` units of `denom`.
pub fn coin(amount: u128, denom: &str) -> (coin: Coin)
    ensures
        coin@ == (CoinView { denom: denom@, amount: amount as nat }),
{
    Coin { denom: denom.to_owned(), amount }
}

/// The coins of a list, each as a mathematical value.
pub open spec fn coins_view(coins: Seq<Coin>) -> Seq<CoinView> {
    coins.map_values(|coin: Coin| coin@)
}

/// Who sent a request, and the funds attached to it.
#[derive(Debug, PartialEq, Eq)]
pub struct MessageInfo {
    pub sender: String,
    pub funds: Vec<Coin>,
}

/// A [`MessageInfo`] as a mathematical value.
pub struct MessageInfoView {
    pub sender: Seq<char>,
    pub funds: Seq<CoinView>,
}

impl View for MessageInfo {
    type V = MessageInfoView;

    open spec fn view(&self) -> MessageInfoView {
        MessageInfoView { sender: self.sender@, funds: coins_view(self.funds@) }
    }
}

/// What is fixed when a pool is created.
#[derive(Debug, PartialEq, Eq)]
pub struct Config {
    /// The address of the ledger that mints and burns the liquidity token.
    pub lp_token_addr: String,
    /// The share of a swap's input that is kept as fee.
    pub fee_share: Decimal,
    /// How far a deposit may deviate from the pool's ratio.
    pub tolerance_percentage: Decimal,
}

/// A [`Config`] as a mathematical value: both fractions in atomic units.
#[verifier::ext_equal]
pub struct ConfigView {
    pub lp_token_addr: Seq<char>,
    pub fee_share: nat,
    pub tolerance_percentage: nat,
}

impl ConfigView {
    /// Fee and tolerance are fractions in `[0, 1)`, which is what a pool is
    /// meant to be created with.
    pub open spec fn wf(self) -> bool {
        &&& self.fee_share < crate::math::DECIMAL_FRACTIONAL
        &&& self.tolerance_percentage < crate::math::DECIMAL_FRACTIONAL
    }
}

impl View for Config {
    type V = ConfigView;

    open spec fn view(&self) -> ConfigView {
        ConfigView {
            lp_token_addr: self.lp_token_addr@,
            fee_share: self.fee_share@,
            tolerance_percentage: self.tolerance_percentage@,
        }
    }
}

impl Clone for Config {
    fn clone(&self) -> (copy: Config)
        ensures
            copy == *self,
    {
        Config {
            lp_token_addr: self.lp_token_addr.clone(),
            fee_share: self.fee_share,
            tolerance_percentage: self.tolerance_percentage,
        }
    }
}

impl Config {
    /// Whether fee and tolerance are fractions in `[0, 1)`.
    pub fn is_well_formed(&self) -> (ok: bool)
        ensures
            ok == self@.wf(),
    {
        self.fee_share.atomics < crate::math::DECIMAL_FRACTIONAL
            && self.tolerance_percentage.atomics < crate::math::DECIMAL_FRACTIONAL
    }
}

/// The request that creates a pool.
#[derive(Debug, PartialEq, Eq)]
pub struct InstantiateMsg {
    pub initial_funding_token1: Coin,
    pub initial_funding_token2: Coin,
    pub initial_lp_token_supply: u128,
    pub contract_config: Config,
}

/// An [`InstantiateMsg`] as a mathematical value.
pub struct InstantiateMsgView {
    pub initial_funding_token1: CoinView,
    pub initial_funding_token2: CoinView,
    pub initial_lp_token_supply: nat,
    pub contract_config: ConfigView,
}

impl View for InstantiateMsg {
    type V = InstantiateMsgView;

    open spec fn view(&self) -> InstantiateMsgView {
        InstantiateMsgView {
            initial_funding_token1: self.initial_funding_token1@,
            initial_funding_token2: self.initial_funding_token2@,
            initial_lp_token_supply: self.initial_lp_token_supply as nat,
            contract_config: self.contract_config@,
        }
    }
}

/// A request that changes the pool.
#[derive(Debug, PartialEq, Eq)]
pub enum ExecuteMsg {
    Deposit { asset1: Coin, asset2: Coin },
    Withdraw { amount_to_burn: u128 },
    Swap { offered_asset: Coin },
}

/// An [`ExecuteMsg`] as a mathematical value.
pub enum ExecuteMsgView {
    Deposit { asset1: CoinView, asset2: CoinView },
    Withdraw { amount_to_burn: nat },
    Swap { offered_asset: CoinView },
}

impl View for ExecuteMsg {
    type V = ExecuteMsgView;

    open spec fn view(&self) -> ExecuteMsgView {
        match *self {
            ExecuteMsg::Deposit { asset1, asset2 } => ExecuteMsgView::Deposit {
                asset1: asset1@,
                asset2: asset2@,
            },
            ExecuteMsg::Withdraw { amount_to_burn } => ExecuteMsgView::Withdraw {
                amount_to_burn: amount_to_burn as nat,
            },
            ExecuteMsg::Swap { offered_asset } => ExecuteMsgView::Swap {
                offered_asset: offered_asset@,
            },
        }
    }
}

/// A request that only reads the pool.
#[derive(Debug, PartialEq, Eq)]
pub enum QueryMsg {
    GetReserves {},
    GetUserShare { user: String },
    GetConfig {},
}

/// The two reserves of the pool.
#[derive(Clone, Copy, Debug, PartialEq, Eq, Structural)]
pub struct ReservesResponse {
    pub asset1_reserve: u128,
    pub asset2_reserve: u128,
}

/// The shares that one holder owns.
#[derive(Clone, Copy, Debug, PartialEq, Eq, Structural)]
pub struct UserShareResponse {
    pub user_share: u128,
}

/// The answer to a [`QueryMsg`].
#[derive(Debug, PartialEq, Eq)]
pub enum QueryResponse {
    Reserves(ReservesResponse),
    UserShare(UserShareResponse),
    Config(Config),
}

/// An instruction for the outer layer.  A transition hands its effects back
/// and carries out none of them.
#[derive(Debug, PartialEq, Eq)]
pub enum Effect {
    /// Have `ledger` mint `amount` liquidity tokens for `to`.
    MintShares { ledger: String, to: String, amount: u128 },
    /// Have `ledger` burn `amount` liquidity tokens of the caller.
    BurnShares { ledger: String, amount: u128 },
    /// Pay `amount` of `denom` out of the pool to `to`.
    TransferAsset { to: String, denom: String, amount: u128 },
}

/// An [`Effect`] as a mathematical value.
#[verifier::ext_equal]
pub enum EffectView {
    MintShares { ledger: Seq<char>, to: Seq<char>, amount: nat },
    BurnShares { ledger: Seq<char>, amount: nat },
    TransferAsset { to: Seq<char>, denom: Seq<char>, amount: nat },
}

impl View for Effect {
    type V = EffectView;

    open spec fn view(&self) -> EffectView {
        match *self {
            Effect::MintShares { ledger, to, amount } => EffectView::MintShares {
                ledger: ledger@,
                to: to@,
                amount: amount as nat,
            },
            Effect::BurnShares { ledger, amount } => EffectView::BurnShares {
                ledger: ledger@,
                amount: amount as nat,
            },
            Effect::TransferAsset { to, denom, amount } => EffectView::TransferAsset {
                to: to@,
                denom: denom@,
                amount: amount as nat,
            },
        }
    }
}

/// The effects of a list, each as a mathematical value.
pub open spec fn effects_view(effects: Seq<Effect>) -> Seq<EffectView> {
    effects.map_values(|effect: Effect| effect@)
}

} // verus!

use vstd::prelude::*;

verus! {

/// Why a transition was refused.  Every refusal leaves the ledger as it was.
#[derive(Clone, Copy, Debug, PartialEq, Eq, Structural)]
pub enum ContractError {
    /// The attached funds are not the declared ones, or a swap offers a
    /// denomination that the pool does not hold.
    InvalidFunds,
    /// A pool was to be set up with an empty reserve.
    InvalidZeroAmount,
    /// The funds attached to the set-up do not cover both initial amounts.
    InvalidInitialFunds,
    /// A deposit lies outside the tolerance band around the pool's ratio.
    InvalidDepositRatio,
    /// More shares were to be burnt than the caller holds.
    WithdrawError,
    /// A deposit is so small that it would mint no share.
    DepositTooSmall,
    /// A sum or a product does not fit into 128 bits.
    Overflow,
}

impl ContractError {
    /// The text shown to a caller for this error.
    pub fn message(&self) -> (text: &'static str)
        ensures
            text@ == match *self {
                ContractError::InvalidFunds => "Invalid funds sent"@,
                ContractError::InvalidZeroAmount => "Invalid zero amount"@,
                ContractError::InvalidInitialFunds => "Invalid initial funds provided"@,
                ContractError::InvalidDepositRatio => "Invalid deposit ratio"@,
                ContractError::WithdrawError => "Withdrawing more than your current balance"@,
                ContractError::DepositTooSmall => "Deposit too small"@,
                ContractError::Overflow => "Overflow Error"@,
            },
    {
        match self {
            ContractError::InvalidFunds => "Invalid funds sent",
            ContractError::InvalidZeroAmount => "Invalid zero amount",
            ContractError::InvalidInitialFunds => "Invalid initial funds provided",
            ContractError::InvalidDepositRatio => "Invalid deposit ratio",
            ContractError::WithdrawError => "Withdrawing more than your current balance",
            ContractError::DepositTooSmall => "Deposit too small",
            ContractError::Overflow => "Overflow Error",
        }
    }
}

} // verus!

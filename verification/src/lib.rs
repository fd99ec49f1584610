//! A two-asset constant-product liquidity pool ledger.
//!
//! The pool keeps the reserves of two assets and the supply of liquidity
//! shares, and moves between states by three transitions: deposit, withdraw
//! and swap.  Every transition takes the ledger by reference and hands back
//! the effects that an outer layer has to carry out (minting, burning and
//! transfers); the ledger itself performs none of them.  A transition that
//! is refused leaves the ledger as it was.
//!
//! - [`state`] and [`shares`] hold the ledger and its share balances,
//!   [`msg`] the requests, answers and effects, [`error`] the refusals.
//! - [`instantiate`] creates a ledger, [`execute`] holds the three
//!   transitions, [`query`] reads a ledger, and [`contract`] dispatches
//!   requests to them.
//! - [`math`] holds the fixed-point arithmetic, which multiplies in 256
//!   bits through `cosmwasm_std`.
//! - [`theorems`] states what holds of the transitions for every pool and
//!   every request.
//!
//! All amounts are unsigned 128-bit integers.  No operation wraps: a sum or
//! product that does not fit is refused as an overflow.  A request on which
//! the arithmetic has no answer at all (a ratio of an empty reserve, a part
//! of no shares, a fee above the offer) is not admissible: the transitions
//! ask their callers to leave it out, and [`contract::try_execute`] tests
//! for it.

pub mod contract;
pub mod error;
pub mod execute;
pub mod instantiate;
pub mod math;
pub mod msg;
pub mod query;
pub mod shares;
pub mod state;
pub mod theorems;

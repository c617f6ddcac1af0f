//! The ways a ledger operation can fail. Every failure leaves the ledger as
//! it was.
use vstd::prelude::*;

verus! {

#[derive(Clone, Copy, Debug, PartialEq, Eq, Structural)]
pub enum ContractError {
    /// The token metadata was read before the ledger was initialized.
    NotInitialized,
    /// The name, symbol or decimals are out of format.
    InvalidMetadata,
    /// An account identifier was rejected by the identity validator.
    InvalidAddress,
    /// A balance, the supply or the mint cap does not cover the amount.
    InsufficientFunds,
    /// The amount exceeds what the owner approved.
    InsufficientAllowance,
    /// The allowance has expired.
    AllowanceExpired,
    /// The caller lacks the authority, or holds no allowance.
    Unauthorized,
    /// A balance or the supply would overflow.
    ArithmeticOverflow,
}

} // verus!

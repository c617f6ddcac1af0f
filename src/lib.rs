//! A fungible-token ledger: balances, a mint authority and delegated
//! allowances, with every state transition proved against its contract.
pub mod order;
pub mod pagination;
pub mod table;
pub mod error;
pub mod state;
pub mod msg;
pub mod contract;

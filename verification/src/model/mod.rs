//! The entities of the ledger.

pub mod account;
pub mod transaction;

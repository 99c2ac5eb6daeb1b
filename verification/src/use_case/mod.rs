//! The operations of the ledger, each run against a store.

use vstd::prelude::*;

use crate::error::LedgerError;

pub mod account;
pub mod deposit;
pub mod transfer;
pub mod withdraw;

verus! {

/// One operation of the ledger: it takes an input and gives a result or a
/// typed failure. Each implementation states what it does.
pub trait UseCase<I, O> {
    /// Runs the operation once. There is no internal retry.
    fn execute(&mut self, input: I) -> Result<O, LedgerError>;
}

} // verus!

//! The transaction service over a store.

use vstd::prelude::*;

use crate::dto::transaction::{
    DepositTransactionDTO, TransferTransactionDTO, WithdrawalTransactionDTO,
};
use crate::error::LedgerError;
use crate::model::transaction::Transaction;
use crate::service::TransactionService;
use crate::storage::Storage;
use crate::use_case::deposit::{deposit, deposit_outcome};
use crate::use_case::transfer::{transfer, transfer_outcome};
use crate::use_case::withdraw::{withdrawal, withdrawal_outcome};

verus! {

/// The transaction service over a store.
pub struct TransactionServiceImpl<S: Storage> {
    pub storage: S,
}

impl<S: Storage> TransactionServiceImpl<S> {
    /// The service over `storage`.
    pub fn new(storage: S) -> (service: Self)
        ensures
            service.storage == storage,
    {
        TransactionServiceImpl { storage }
    }
}

impl<S: Storage> TransactionService for TransactionServiceImpl<S> {
    /// Credits an account; see [`deposit_outcome`].
    fn deposit(&mut self, request: DepositTransactionDTO) -> (r: Result<
        Vec<Transaction>,
        LedgerError,
    >)
        ensures
            final(self).storage.reliable() == old(self).storage.reliable(),
            deposit_outcome(
                old(self).storage.state(),
                final(self).storage.state(),
                old(self).storage.reliable(),
                request,
                r,
            ),
    {
        deposit(&mut self.storage, request)
    }

    /// Debits an account; see [`withdrawal_outcome`].
    fn withdrawal(&mut self, request: WithdrawalTransactionDTO) -> (r: Result<
        Vec<Transaction>,
        LedgerError,
    >)
        ensures
            final(self).storage.reliable() == old(self).storage.reliable(),
            withdrawal_outcome(
                old(self).storage.state(),
                final(self).storage.state(),
                old(self).storage.reliable(),
                request,
                r,
            ),
    {
        withdrawal(&mut self.storage, request)
    }

    /// Moves money from one account to another; see [`transfer_outcome`].
    fn transfer(&mut self, request: TransferTransactionDTO) -> (r: Result<
        Vec<Transaction>,
        LedgerError,
    >)
        ensures
            final(self).storage.reliable() == old(self).storage.reliable(),
            transfer_outcome(
                old(self).storage.state(),
                final(self).storage.state(),
                old(self).storage.reliable(),
                request,
                r,
            ),
    {
        transfer(&mut self.storage, request)
    }
}

} // verus!

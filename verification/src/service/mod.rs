//! The operations grouped as services over one store.

use vstd::prelude::*;

use crate::dto::transaction::{
    DepositTransactionDTO, TransferTransactionDTO, WithdrawalTransactionDTO,
};
use crate::error::LedgerError;
use crate::model::account::Account;
use crate::model::transaction::Transaction;

pub mod account;
pub mod transaction;

verus! {

/// Opening and reading accounts. Each implementation states what it does.
pub trait AccountService {
    /// Opens an account.
    fn create_one(&mut self, account: Account) -> Result<Account, LedgerError>;

    /// Reads an account.
    fn get_by_uuid(&self, uuid: u128) -> Result<Option<Account>, LedgerError>;
}

/// The three money movements. Each implementation states what it does.
pub trait TransactionService {
    /// Credits an account.
    fn deposit(&mut self, request: DepositTransactionDTO) -> Result<Vec<Transaction>, LedgerError>;

    /// Debits an account.
    fn withdrawal(&mut self, request: WithdrawalTransactionDTO) -> Result<
        Vec<Transaction>,
        LedgerError,
    >;

    /// Moves money from one account to another.
    fn transfer(&mut self, request: TransferTransactionDTO) -> Result<
        Vec<Transaction>,
        LedgerError,
    >;
}

} // verus!

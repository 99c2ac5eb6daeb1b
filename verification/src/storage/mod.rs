//! The storage contract: what the money-movement operations need from a store.

use vstd::prelude::*;

use crate::error::LedgerError;
use crate::ledger::{transaction_views, update_views, AccountUpdate, Ledger};
use crate::model::account::Account;
use crate::model::transaction::Transaction;

pub mod in_memory;

verus! {

/// How a backend's native conditional write ended.
#[derive(Clone, Copy, Debug, PartialEq, Eq, Structural)]
pub enum WriteOutcome {
    /// Every write took effect.
    Applied,
    /// A version condition did not hold; nothing was written.
    ConditionFailed,
    /// The backend could not be reached or gave no answer; nothing is known
    /// to be written.
    Unreachable,
}

/// What an atomic apply returns for the outcome of the native write: the
/// transactions that were handed in when it was applied, a version conflict
/// when a condition failed, and unavailability otherwise. A conflict is passed
/// on as it is: nothing is retried here.
pub fn concluded(outcome: WriteOutcome, new_transactions: Vec<Transaction>) -> (r: Result<
    Vec<Transaction>,
    LedgerError,
>)
    ensures
        r == (match outcome {
            WriteOutcome::Applied => Ok(new_transactions),
            WriteOutcome::ConditionFailed => Err(LedgerError::VersionConflict),
            WriteOutcome::Unreachable => Err(LedgerError::StorageUnavailable),
        }),
{
    match outcome {
        WriteOutcome::Applied => Ok(new_transactions),
        WriteOutcome::ConditionFailed => Err(LedgerError::VersionConflict),
        WriteOutcome::Unreachable => Err(LedgerError::StorageUnavailable),
    }
}

/// A store of accounts and transactions to which the caller has exclusive
/// access for the length of each call.
///
/// Every implementation owes the same atomicity: a batch is applied whole, and
/// only if each account it writes still has the version the batch expects.
pub trait Storage {
    /// What the store holds.
    spec fn state(&self) -> Ledger;

    /// Whether the store can always be reached. A reliable store never reports
    /// [`LedgerError::StorageUnavailable`].
    spec fn reliable(&self) -> bool;

    /// Reads an account. Absence is a result, not a failure.
    fn get_account(&self, uuid: u128) -> (r: Result<Option<Account>, LedgerError>)
        ensures
            match r {
                Ok(Some(a)) => self.state().accounts.contains_key(uuid) && a@
                    == self.state().accounts[uuid] && a.uuid == uuid,
                Ok(None) => !self.state().accounts.contains_key(uuid),
                Err(e) => e == LedgerError::StorageUnavailable && !self.reliable(),
            },
    ;

    /// Writes an account unconditionally, replacing any account of the same
    /// identifier.
    fn save_account(&mut self, account: Account) -> (r: Result<(), LedgerError>)
        ensures
            final(self).reliable() == old(self).reliable(),
            match r {
                Ok(_) => final(self).state() == old(self).state().with_account(account@),
                Err(e) => {
                    &&& e == LedgerError::StorageUnavailable
                    &&& !old(self).reliable()
                    &&& final(self).state() == old(self).state()
                },
            },
    ;

    /// Persists the new transactions and the account updates as one unit. The
    /// batch takes effect only if the store admits it; otherwise nothing is
    /// written and the call reports [`LedgerError::VersionConflict`].
    fn atomic_apply(
        &mut self,
        new_transactions: Vec<Transaction>,
        updated_accounts: Vec<AccountUpdate>,
    ) -> (r: Result<Vec<Transaction>, LedgerError>)
        ensures
            final(self).reliable() == old(self).reliable(),
            match r {
                Ok(done) => {
                    &&& old(self).state().admits(update_views(updated_accounts@))
                    &&& final(self).state() == old(self).state().applied(
                        transaction_views(new_transactions@),
                        update_views(updated_accounts@),
                    )
                    &&& done@ == new_transactions@
                },
                Err(e) => {
                    &&& final(self).state() == old(self).state()
                    &&& e == LedgerError::VersionConflict || e == LedgerError::StorageUnavailable
                    &&& e == LedgerError::VersionConflict ==> !old(self).state().admits(
                        update_views(updated_accounts@),
                    )
                    &&& e == LedgerError::StorageUnavailable ==> !old(self).reliable()
                },
            },
    ;
}

} // verus!

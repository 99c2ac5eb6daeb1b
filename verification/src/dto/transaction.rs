//! The inputs of the three money movements, and the batch each one asks for.

use vstd::prelude::*;

use crate::error::LedgerError;
use crate::ledger::AccountUpdate;
use crate::model::account::{Account, AccountView};
use crate::model::transaction::{Transaction, TransactionView};
use crate::money::{representable, Money};
use crate::plan::{
    deposit_plan, leg_entry, leg_update, plan_is, transfer_plan, withdrawal_plan, Batch, Stamp,
};

verus! {

/// The transaction and account write of one leg that brings the account to
/// `balance`.
fn leg(
    account: &Account,
    idempotency_key: &str,
    amount: &Money,
    balance: Money,
    stamp: &Stamp,
) -> (r: (Transaction, AccountUpdate))
    requires
        balance@ == account@.balance + amount@,
    ensures
        r.0@ == leg_entry(account@, idempotency_key@, amount@, *stamp),
        r.1@ == leg_update(account@, amount@, *stamp),
{
    (
        Transaction::stamped(account, idempotency_key, amount, stamp.id, stamp.at),
        AccountUpdate {
            account: account.with_balance(balance, stamp.at, stamp.version),
            expected_version: account.version,
        },
    )
}

/// The view of an account that may be absent.
pub open spec fn read_as(account: Option<&Account>) -> Option<AccountView> {
    match account {
        Some(a) => Some(a@),
        None => None,
    }
}

/// A request to credit an account.
#[derive(Debug, PartialEq, Eq)]
pub struct DepositTransactionDTO {
    pub idempotency_key: String,
    pub account_id: u128,
    pub amount: Money,
}

impl DepositTransactionDTO {
    /// The transaction of this deposit against `account`, recorded now under a
    /// newly drawn identifier.
    pub fn to_transaction(&self, account: &Account) -> (t: Transaction)
        ensures
            t@ == TransactionView::against(
                account@,
                self.idempotency_key@,
                self.amount@,
                t.id,
                t.created_at as int,
            ),
    {
        Transaction::new(account, self.idempotency_key.as_str(), &self.amount)
    }

    /// The first step of this deposit: the account to read, or the refusal of
    /// an amount that is not strictly positive, before anything is read.
    pub fn begin(&self) -> (r: Result<u128, LedgerError>)
        ensures
            r == (if self.amount@ > 0 {
                Ok::<u128, LedgerError>(self.account_id)
            } else {
                Err::<u128, LedgerError>(LedgerError::InvalidAmount)
            }),
    {
        if self.amount.is_positive() {
            Ok(self.account_id)
        } else {
            Err(LedgerError::InvalidAmount)
        }
    }

    /// What this deposit writes, given the account as it was read.
    pub fn plan(&self, account: Option<&Account>, stamp: &Stamp) -> (r: Result<Batch, LedgerError>)
        ensures
            plan_is(
                r,
                deposit_plan(self.idempotency_key@, self.amount@, read_as(account), *stamp),
            ),
    {
        if !self.amount.is_positive() {
            return Err(LedgerError::InvalidAmount);
        }
        match account {
            None => Err(LedgerError::AccountNotFound),
            Some(a) => match a.balance.checked_add(&self.amount) {
                None => Err(LedgerError::BalanceOverflow),
                Some(balance) => {
                    let (entry, update) = leg(
                        a,
                        self.idempotency_key.as_str(),
                        &self.amount,
                        balance,
                        stamp,
                    );
                    let batch = Batch {
                        new_transactions: vec![entry],
                        updated_accounts: vec![update],
                    };
                    assert(batch@.transactions =~= seq![entry@]);
                    assert(batch@.updates =~= seq![update@]);
                    Ok(batch)
                },
            },
        }
    }
}

/// A request to debit an account.
#[derive(Debug, PartialEq, Eq)]
pub struct WithdrawalTransactionDTO {
    pub idempotency_key: String,
    pub account_id: u128,
    pub amount: Money,
}

impl WithdrawalTransactionDTO {
    /// The transaction of this withdrawal against `account`: the amount with
    /// its sign flipped, recorded now under a newly drawn identifier.
    pub fn to_transaction(&self, account: &Account) -> (t: Transaction)
        requires
            representable(-self.amount@),
        ensures
            t@ == TransactionView::against(
                account@,
                self.idempotency_key@,
                -self.amount@,
                t.id,
                t.created_at as int,
            ),
    {
        let negative_amount = self.amount.negated();
        Transaction::new(account, self.idempotency_key.as_str(), &negative_amount)
    }

    /// The first step of this withdrawal: the account to read, or the refusal
    /// of an amount that is not strictly positive, before anything is read.
    pub fn begin(&self) -> (r: Result<u128, LedgerError>)
        ensures
            r == (if self.amount@ > 0 {
                Ok::<u128, LedgerError>(self.account_id)
            } else {
                Err::<u128, LedgerError>(LedgerError::InvalidAmount)
            }),
    {
        if self.amount.is_positive() {
            Ok(self.account_id)
        } else {
            Err(LedgerError::InvalidAmount)
        }
    }

    /// What this withdrawal writes, given the account as it was read.
    pub fn plan(&self, account: Option<&Account>, stamp: &Stamp) -> (r: Result<Batch, LedgerError>)
        ensures
            plan_is(
                r,
                withdrawal_plan(self.idempotency_key@, self.amount@, read_as(account), *stamp),
            ),
    {
        if !self.amount.is_positive() {
            return Err(LedgerError::InvalidAmount);
        }
        match account {
            None => Err(LedgerError::AccountNotFound),
            Some(a) => {
                if a.balance.is_below(&self.amount) {
                    return Err(LedgerError::InsufficientBalance);
                }
                let negative_amount = self.amount.negated();
                let balance = a.balance.plus(&negative_amount);
                let (entry, update) = leg(
                    a,
                    self.idempotency_key.as_str(),
                    &negative_amount,
                    balance,
                    stamp,
                );
                let batch = Batch { new_transactions: vec![entry], updated_accounts: vec![update] };
                assert(batch@.transactions =~= seq![entry@]);
                assert(batch@.updates =~= seq![update@]);
                Ok(batch)
            },
        }
    }
}

/// A request to move money from one account to another.
#[derive(Debug, PartialEq, Eq)]
pub struct TransferTransactionDTO {
    pub idempotency_key: String,
    pub from_account_id: u128,
    pub to_account_id: u128,
    pub amount: Money,
}

impl TransferTransactionDTO {
    /// The two transactions of this transfer, debit first: exact negatives of
    /// each other under one idempotency key, each recorded now under a newly
    /// drawn identifier.
    pub fn to_transactions(&self, from: &Account, to: &Account) -> (t: (Transaction, Transaction))
        requires
            representable(-self.amount@),
        ensures
            t.0@ == TransactionView::against(
                from@,
                self.idempotency_key@,
                -self.amount@,
                t.0.id,
                t.0.created_at as int,
            ),
            t.1@ == TransactionView::against(
                to@,
                self.idempotency_key@,
                self.amount@,
                t.1.id,
                t.1.created_at as int,
            ),
    {
        let negative_amount = self.amount.negated();
        (
            Transaction::new(from, self.idempotency_key.as_str(), &negative_amount),
            Transaction::new(to, self.idempotency_key.as_str(), &self.amount),
        )
    }

    /// The first step of this transfer: the source account to read, or the
    /// refusal of an amount that is not strictly positive, before anything is
    /// read.
    pub fn begin(&self) -> (r: Result<u128, LedgerError>)
        ensures
            r == (if self.amount@ > 0 {
                Ok::<u128, LedgerError>(self.from_account_id)
            } else {
                Err::<u128, LedgerError>(LedgerError::InvalidAmount)
            }),
    {
        if self.amount.is_positive() {
            Ok(self.from_account_id)
        } else {
            Err(LedgerError::InvalidAmount)
        }
    }

    /// The second step of this transfer, once the source was read: the
    /// destination account to read, or the refusal of a source that is missing
    /// or holds less than the amount, before the destination is read.
    pub fn proceed(&self, from: Option<&Account>) -> (r: Result<u128, LedgerError>)
        ensures
            r == (match from {
                None => Err::<u128, LedgerError>(LedgerError::SourceNotFound),
                Some(source) => if source@.balance < self.amount@ {
                    Err::<u128, LedgerError>(LedgerError::InsufficientBalance)
                } else {
                    Ok::<u128, LedgerError>(self.to_account_id)
                },
            }),
    {
        match from {
            None => Err(LedgerError::SourceNotFound),
            Some(source) => if source.balance.is_below(&self.amount) {
                Err(LedgerError::InsufficientBalance)
            } else {
                Ok(self.to_account_id)
            },
        }
    }

    /// What this transfer writes, given both accounts as they were read.
    pub fn plan(
        &self,
        from: Option<&Account>,
        to: Option<&Account>,
        from_stamp: &Stamp,
        to_stamp: &Stamp,
    ) -> (r: Result<Batch, LedgerError>)
        ensures
            plan_is(
                r,
                transfer_plan(
                    self.idempotency_key@,
                    self.amount@,
                    read_as(from),
                    read_as(to),
                    *from_stamp,
                    *to_stamp,
                ),
            ),
    {
        if !self.amount.is_positive() {
            return Err(LedgerError::InvalidAmount);
        }
        let source = match from {
            None => {
                return Err(LedgerError::SourceNotFound);
            },
            Some(a) => a,
        };
        if source.balance.is_below(&self.amount) {
            return Err(LedgerError::InsufficientBalance);
        }
        let destination = match to {
            None => {
                return Err(LedgerError::DestinationNotFound);
            },
            Some(a) => a,
        };
        let credited = match destination.balance.checked_add(&self.amount) {
            None => {
                return Err(LedgerError::BalanceOverflow);
            },
            Some(balance) => balance,
        };
        let negative_amount = self.amount.negated();
        let debited = source.balance.plus(&negative_amount);
        let key = self.idempotency_key.as_str();
        let (from_entry, from_update) = leg(source, key, &negative_amount, debited, from_stamp);
        let (to_entry, to_update) = leg(destination, key, &self.amount, credited, to_stamp);
        let batch = Batch {
            new_transactions: vec![from_entry, to_entry],
            updated_accounts: vec![from_update, to_update],
        };
        assert(batch@.transactions =~= seq![from_entry@, to_entry@]);
        assert(batch@.updates =~= seq![from_update@, to_update@]);
        Ok(batch)
    }
}

} // verus!

//! Transactions: the records that justify balance changes.

use vstd::prelude::*;

use crate::clock::now_in_nanos;
use crate::model::account::{Account, AccountView};
use crate::money::Money;
use crate::token::random_uuid;

verus! {

/// One signed entry against one account. Created once, never changed.
#[derive(Debug, PartialEq, Eq)]
pub struct Transaction {
    pub id: u128,
    pub idempotency_key: String,
    pub account_version: u128,
    pub account_id: u128,
    pub amount: Money,
    pub created_at: i64,
    pub currency: String,
}

/// What a transaction is, as plain mathematical values.
pub struct TransactionView {
    pub id: u128,
    pub idempotency_key: Seq<char>,
    pub account_version: u128,
    pub account_id: u128,
    pub amount: int,
    pub created_at: int,
    pub currency: Seq<char>,
}

impl View for Transaction {
    type V = TransactionView;

    open spec fn view(&self) -> TransactionView {
        TransactionView {
            id: self.id,
            idempotency_key: self.idempotency_key@,
            account_version: self.account_version,
            account_id: self.account_id,
            amount: self.amount@,
            created_at: self.created_at as int,
            currency: self.currency@,
        }
    }
}

impl TransactionView {
    /// The entry of `amount` against `account` as it was read: it records the
    /// account's identity, currency and the version observed.
    pub open spec fn against(
        account: AccountView,
        idempotency_key: Seq<char>,
        amount: int,
        id: u128,
        at: int,
    ) -> TransactionView {
        TransactionView {
            id,
            idempotency_key,
            account_version: account.version,
            account_id: account.uuid,
            amount,
            created_at: at,
            currency: account.currency,
        }
    }
}

impl Clone for Transaction {
    fn clone(&self) -> (r: Self)
        ensures
            r == *self,
    {
        Transaction {
            id: self.id,
            idempotency_key: self.idempotency_key.clone(),
            account_version: self.account_version,
            account_id: self.account_id,
            amount: self.amount,
            created_at: self.created_at,
            currency: self.currency.clone(),
        }
    }
}

impl Transaction {
    /// Records `amount` against `account` now, under a newly drawn identifier.
    pub fn new(account: &Account, idempotency_key: &str, amount: &Money) -> (t: Transaction)
        ensures
            t@ == TransactionView::against(
                account@,
                idempotency_key@,
                amount@,
                t.id,
                t.created_at as int,
            ),
    {
        Transaction::stamped(account, idempotency_key, amount, random_uuid(), now_in_nanos())
    }

    /// Records `amount` against `account` at time `at` under identifier `id`.
    pub fn stamped(account: &Account, idempotency_key: &str, amount: &Money, id: u128, at: i64) -> (t:
        Transaction)
        ensures
            t@ == TransactionView::against(account@, idempotency_key@, amount@, id, at as int),
    {
        Transaction {
            id,
            idempotency_key: idempotency_key.to_owned(),
            account_version: account.version,
            account_id: account.uuid,
            currency: account.currency.clone(),
            amount: *amount,
            created_at: at,
        }
    }
}

} // verus!

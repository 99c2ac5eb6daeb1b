//! Accounts and their versions.

use vstd::prelude::*;

use crate::clock::now_in_nanos;
use crate::money::{representable, Money};
use crate::token::{next_version, random_uuid, successor};

verus! {

/// A ledger account. The balance is exact at two decimal digits; the version
/// is an opaque token that changes whenever the balance or the time of the last
/// update changes.
#[derive(Debug, PartialEq, Eq)]
pub struct Account {
    pub uuid: u128,
    pub currency: String,
    pub balance: Money,
    pub created_at: i64,
    pub last_updated_at: i64,
    pub version: u128,
}

/// What an account is, as plain mathematical values.
pub struct AccountView {
    pub uuid: u128,
    pub currency: Seq<char>,
    pub balance: int,
    pub created_at: int,
    pub last_updated_at: int,
    pub version: u128,
}

impl View for Account {
    type V = AccountView;

    open spec fn view(&self) -> AccountView {
        AccountView {
            uuid: self.uuid,
            currency: self.currency@,
            balance: self.balance@,
            created_at: self.created_at as int,
            last_updated_at: self.last_updated_at as int,
            version: self.version,
        }
    }
}

impl AccountView {
    /// A newly opened account: balance 0.00, both timestamps at `at`.
    pub open spec fn opened(uuid: u128, currency: Seq<char>, at: int, version: u128) -> AccountView {
        AccountView {
            uuid,
            currency,
            balance: 0,
            created_at: at,
            last_updated_at: at,
            version,
        }
    }

    /// The account after its balance moved by `delta` at time `at`: identity,
    /// currency and creation time stay; the version moves to the successor of
    /// the present one for `candidate`.
    pub open spec fn moved(self, delta: int, at: int, candidate: u128) -> AccountView {
        AccountView {
            balance: self.balance + delta,
            last_updated_at: at,
            version: successor(self.version, candidate),
            ..self
        }
    }
}

impl Clone for Account {
    fn clone(&self) -> (r: Self)
        ensures
            r == *self,
    {
        Account {
            uuid: self.uuid,
            currency: self.currency.clone(),
            balance: self.balance,
            created_at: self.created_at,
            last_updated_at: self.last_updated_at,
            version: self.version,
        }
    }
}

impl Account {
    /// Opens an account now, under a newly drawn version.
    pub fn new(uuid: u128, currency: &String) -> (a: Account)
        ensures
            a@ == AccountView::opened(uuid, currency@, a.created_at as int, a.version),
    {
        Account::opened(uuid, currency, now_in_nanos(), random_uuid())
    }

    /// Opens an account at time `at` under `version`.
    pub fn opened(uuid: u128, currency: &String, at: i64, version: u128) -> (a: Account)
        ensures
            a@ == AccountView::opened(uuid, currency@, at as int, version),
    {
        Account {
            uuid,
            currency: currency.clone(),
            balance: Money::zero(),
            created_at: at,
            last_updated_at: at,
            version,
        }
    }

    /// Rebuilds an account from the values a backend stored for it.
    pub fn from_storage(
        uuid: u128,
        currency: String,
        balance: Money,
        created_at_in_nanos: i64,
        last_updated_at_in_nanos: i64,
        version: u128,
    ) -> (a: Account)
        ensures
            a@ == (AccountView {
                uuid,
                currency: currency@,
                balance: balance@,
                created_at: created_at_in_nanos as int,
                last_updated_at: last_updated_at_in_nanos as int,
                version,
            }),
    {
        Account {
            uuid,
            currency,
            balance,
            created_at: created_at_in_nanos,
            last_updated_at: last_updated_at_in_nanos,
            version,
        }
    }

    /// The account with a new balance, written at time `at`. The version moves
    /// to the successor of the present one for `candidate`, and so is never the
    /// present one.
    pub fn with_balance(&self, balance: Money, at: i64, candidate: u128) -> (a: Account)
        ensures
            a@ == self@.moved(balance@ - self@.balance, at as int, candidate),
            a.version != self.version,
    {
        Account {
            uuid: self.uuid,
            currency: self.currency.clone(),
            balance,
            created_at: self.created_at,
            last_updated_at: at,
            version: next_version(self.version, candidate),
        }
    }

    /// The account after its balance moved by `delta` at time `at`, or `None`
    /// when the new balance is not representable.
    pub fn moved(&self, delta: &Money, at: i64, candidate: u128) -> (r: Option<Account>)
        ensures
            representable(self@.balance + delta@) ==> r.is_some() && r.unwrap()@ == self@.moved(
                delta@,
                at as int,
                candidate,
            ),
            !representable(self@.balance + delta@) ==> r.is_none(),
            r.is_some() ==> r.unwrap().version != self.version,
    {
        match self.balance.checked_add(delta) {
            None => None,
            Some(balance) => Some(self.with_balance(balance, at, candidate)),
        }
    }
}

} // verus!

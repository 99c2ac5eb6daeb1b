//! Opening an account, and reading one.

use vstd::prelude::*;

use crate::dto::account::AccountCreationDTO;
use crate::error::LedgerError;
use crate::laws::consistency::law_opening_keeps_consistency;
use crate::ledger::Ledger;
use crate::model::account::{Account, AccountView};
use crate::storage::Storage;
use crate::use_case::UseCase;

verus! {

/// What opening an account does to a store, and what it answers.
///
/// An account is opened once. An identifier that is already taken keeps its
/// account: nothing is written and the stored account is the answer, so no
/// balance is ever reset by a second creation. Otherwise the account offered is
/// stored and is the answer. Only a store that is not reliable fails, and then
/// nothing is written.
pub open spec fn opening_outcome(
    before: Ledger,
    after: Ledger,
    reliable: bool,
    offered: AccountView,
    r: Result<Account, LedgerError>,
) -> bool {
    &&& reliable ==> r is Ok
    &&& match r {
        Ok(account) => if before.accounts.contains_key(offered.uuid) {
            &&& after == before
            &&& account@ == before.accounts[offered.uuid]
        } else {
            &&& account@ == offered
            &&& after == before.with_account(offered)
        },
        Err(e) => {
            &&& e == LedgerError::StorageUnavailable
            &&& !reliable
            &&& after == before
        },
    }
}

/// What to do about an account offered for opening, once the store was asked
/// for its identifier.
#[derive(Debug, PartialEq, Eq)]
pub enum Opening {
    /// The identifier is taken: write nothing, answer with the stored account.
    Keep(Account),
    /// The identifier is free: store the account offered, answer with it.
    Store(Account),
}

/// Decides an opening: an account found under the identifier is kept, and only
/// where none was found is the offered one stored.
pub fn decide_opening(found: Option<Account>, offered: Account) -> (r: Opening)
    ensures
        r == (match found {
            Some(existing) => Opening::Keep(existing),
            None => Opening::Store(offered),
        }),
{
    match found {
        Some(existing) => Opening::Keep(existing),
        None => Opening::Store(offered),
    }
}

/// Opens `account` in `storage` unless its identifier is taken. A consistent
/// ledger stays consistent when the account offered has balance 0.00.
pub fn open_account<S: Storage>(storage: &mut S, account: Account) -> (r: Result<
    Account,
    LedgerError,
>)
    ensures
        final(storage).reliable() == old(storage).reliable(),
        opening_outcome(
            old(storage).state(),
            final(storage).state(),
            old(storage).reliable(),
            account@,
            r,
        ),
        old(storage).state().consistent() && account@.balance == 0
            ==> final(storage).state().consistent(),
{
    let ghost offered = account@;
    let found = match storage.get_account(account.uuid) {
        Err(e) => {
            return Err(e);
        },
        Ok(found) => found,
    };
    match decide_opening(found, account) {
        Opening::Keep(existing) => Ok(existing),
        Opening::Store(account) => {
            proof {
                if storage.state().consistent() && offered.balance == 0 {
                    law_opening_keeps_consistency(storage.state(), offered);
                }
            }
            match storage.save_account(account.clone()) {
                Err(e) => Err(e),
                Ok(_) => Ok(account),
            }
        },
    }
}

/// What reading an account answers: the account the ledger holds under the
/// identifier, absence where it holds none; only a store that is not
/// reliable fails.
pub open spec fn reading_outcome(
    ledger: Ledger,
    reliable: bool,
    uuid: u128,
    r: Result<Option<Account>, LedgerError>,
) -> bool {
    match r {
        Ok(Some(account)) => ledger.account(uuid) == Some(account@) && account.uuid == uuid,
        Ok(None) => ledger.account(uuid) is None,
        Err(e) => e == LedgerError::StorageUnavailable && !reliable,
    }
}

/// The operation that opens accounts in a store.
pub struct CreateAccountUseCase<S: Storage> {
    pub storage: S,
}

impl<S: Storage> CreateAccountUseCase<S> {
    /// The operation over `storage`.
    pub fn new(storage: S) -> (u: Self)
        ensures
            u.storage == storage,
    {
        CreateAccountUseCase { storage }
    }
}

impl<S: Storage> UseCase<AccountCreationDTO, Account> for CreateAccountUseCase<S> {
    /// Opens the account the request describes, with balance 0.00, unless its
    /// identifier is taken; see [`opening_outcome`]. A consistent ledger stays
    /// consistent.
    fn execute(&mut self, input: AccountCreationDTO) -> (r: Result<Account, LedgerError>)
        ensures
            final(self).storage.reliable() == old(self).storage.reliable(),
            old(self).storage.state().consistent() ==> final(self).storage.state().consistent(),
            exists|at: int, version: u128|
                opening_outcome(
                    old(self).storage.state(),
                    final(self).storage.state(),
                    old(self).storage.reliable(),
                    #[trigger] AccountView::opened(input.uuid, input.currency@, at, version),
                    r,
                ),
    {
        let account = input.to_account();
        open_account(&mut self.storage, account)
    }
}

/// The operation that reads accounts from a store.
pub struct GetAccountByUuidUseCase<S: Storage> {
    pub storage: S,
}

impl<S: Storage> GetAccountByUuidUseCase<S> {
    /// The operation over `storage`.
    pub fn new(storage: S) -> (u: Self)
        ensures
            u.storage == storage,
    {
        GetAccountByUuidUseCase { storage }
    }
}

impl<S: Storage> UseCase<u128, Option<Account>> for GetAccountByUuidUseCase<S> {
    /// Reads the account of this identifier. Absence is a result, not a
    /// failure, and the store is never changed.
    fn execute(&mut self, input: u128) -> (r: Result<Option<Account>, LedgerError>)
        ensures
            final(self).storage == old(self).storage,
            reading_outcome(old(self).storage.state(), old(self).storage.reliable(), input, r),
    {
        self.storage.get_account(input)
    }
}

} // verus!

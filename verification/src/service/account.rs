//! The account service over a store.

use vstd::prelude::*;

use crate::error::LedgerError;
use crate::model::account::Account;
use crate::service::AccountService;
use crate::storage::Storage;
use crate::use_case::account::{open_account, opening_outcome, reading_outcome};

verus! {

/// The account service over a store.
pub struct AccountServiceImpl<S: Storage> {
    pub storage: S,
}

impl<S: Storage> AccountServiceImpl<S> {
    /// The service over `storage`.
    pub fn new(storage: S) -> (service: Self)
        ensures
            service.storage == storage,
    {
        AccountServiceImpl { storage }
    }
}

impl<S: Storage> AccountService for AccountServiceImpl<S> {
    /// Opens `account` unless its identifier is taken; see
    /// [`opening_outcome`].
    fn create_one(&mut self, account: Account) -> (r: Result<Account, LedgerError>)
        ensures
            final(self).storage.reliable() == old(self).storage.reliable(),
            opening_outcome(
                old(self).storage.state(),
                final(self).storage.state(),
                old(self).storage.reliable(),
                account@,
                r,
            ),
    {
        open_account(&mut self.storage, account)
    }

    /// Reads the account of this identifier; see [`reading_outcome`].
    fn get_by_uuid(&self, uuid: u128) -> (r: Result<Option<Account>, LedgerError>)
        ensures
            reading_outcome(self.storage.state(), self.storage.reliable(), uuid, r),
    {
        self.storage.get_account(uuid)
    }
}

} // verus!

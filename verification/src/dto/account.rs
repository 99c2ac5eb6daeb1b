//! The input of account creation.

use vstd::prelude::*;

use crate::model::account::{Account, AccountView};

verus! {

/// A request to open an account.
#[derive(Debug, PartialEq, Eq)]
pub struct AccountCreationDTO {
    pub uuid: u128,
    pub currency: String,
}

impl AccountCreationDTO {
    /// The account this request opens: balance 0.00, opened now under a newly
    /// drawn version.
    pub fn to_account(&self) -> (a: Account)
        ensures
            a@ == AccountView::opened(self.uuid, self.currency@, a.created_at as int, a.version),
    {
        Account::new(self.uuid, &self.currency)
    }
}

} // verus!

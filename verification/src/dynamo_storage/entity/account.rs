//! The stored form of an account.

use vstd::prelude::*;

use crate::clock::millis_to_nanos;
use crate::decimal::decimal_parts;
use crate::dynamo_storage::entity::utils::{
    amount_or_zero, get_bigdecimal, get_i64, get_string, get_uuid, integer_at, item_view,
    number_at, string_at, Attribute, AttributeView,
};
use crate::model::account::{Account, AccountView};
use crate::money::Money;
use crate::token::uuid_of_text;

verus! {

/// An account as the document store holds it: timestamps in milliseconds.
#[derive(Debug, PartialEq, Eq)]
pub struct AccountEntity {
    pub uuid: u128,
    pub currency: String,
    pub balance: Money,
    pub created_at_in_millis: i64,
    pub last_updated_at_in_millis: i64,
    pub version: u128,
}

/// The stored form of an account as plain mathematical values.
pub struct AccountEntityView {
    pub uuid: u128,
    pub currency: Seq<char>,
    pub balance: int,
    pub created_at_in_millis: int,
    pub last_updated_at_in_millis: int,
    pub version: u128,
}

impl View for AccountEntity {
    type V = AccountEntityView;

    open spec fn view(&self) -> AccountEntityView {
        AccountEntityView {
            uuid: self.uuid,
            currency: self.currency@,
            balance: self.balance@,
            created_at_in_millis: self.created_at_in_millis as int,
            last_updated_at_in_millis: self.last_updated_at_in_millis as int,
            version: self.version,
        }
    }
}

/// Whether a count of milliseconds can be told in nanoseconds of 64 bits.
pub open spec fn tells_in_nanos(millis: int) -> bool {
    i64::MIN <= millis * 1_000_000 <= i64::MAX
}

/// What an item decodes to: the identifier and the version must be tokens;
/// every other attribute falls back to its default.
pub open spec fn account_of_item(item: Seq<AttributeView>) -> Option<AccountEntityView> {
    match (uuid_of_text(string_at(item, "uuid"@)), uuid_of_text(string_at(item, "version"@))) {
        (Some(uuid), Some(version)) => Some(
            AccountEntityView {
                uuid,
                currency: string_at(item, "currency"@),
                balance: amount_or_zero(
                    match number_at(item, "balance"@) {
                        Some(text) => Some(decimal_parts(text)),
                        None => None,
                    },
                )@,
                created_at_in_millis: integer_at(item, "created_at_in_millis"@) as int,
                last_updated_at_in_millis: integer_at(item, "last_updated_at_in_millis"@) as int,
                version,
            },
        ),
        _ => None,
    }
}

/// The account an entity stands for, its timestamps told in nanoseconds;
/// `None` where one of them does not fit.
pub open spec fn account_of_entity(entity: AccountEntityView) -> Option<AccountView> {
    if tells_in_nanos(entity.created_at_in_millis) && tells_in_nanos(
        entity.last_updated_at_in_millis,
    ) {
        Some(
            AccountView {
                uuid: entity.uuid,
                currency: entity.currency,
                balance: entity.balance,
                created_at: entity.created_at_in_millis * 1_000_000,
                last_updated_at: entity.last_updated_at_in_millis * 1_000_000,
                version: entity.version,
            },
        )
    } else {
        None
    }
}

impl AccountEntity {
    /// Decodes an item. `None` where the identifier or the version is missing
    /// or is no token.
    pub fn from_item(value: &Vec<Attribute>) -> (r: Option<AccountEntity>)
        ensures
            match r {
                Some(entity) => account_of_item(item_view(value@)) == Some(entity@),
                None => account_of_item(item_view(value@)) is None,
            },
    {
        let uuid = match get_uuid(value, "uuid") {
            Some(uuid) => uuid,
            None => {
                return None;
            },
        };
        let version = match get_uuid(value, "version") {
            Some(version) => version,
            None => {
                return None;
            },
        };
        Some(
            AccountEntity {
                uuid,
                currency: get_string(value, "currency"),
                balance: get_bigdecimal(value, "balance"),
                created_at_in_millis: get_i64(value, "created_at_in_millis"),
                last_updated_at_in_millis: get_i64(value, "last_updated_at_in_millis"),
                version,
            },
        )
    }

    /// The account this entity stands for, its timestamps told in
    /// nanoseconds; `None` where one of them does not fit.
    pub fn to_account(&self) -> (r: Option<Account>)
        ensures
            match r {
                Some(account) => account_of_entity(self@) == Some(account@),
                None => account_of_entity(self@) is None,
            },
    {
        let created_at = match millis_to_nanos(self.created_at_in_millis) {
            Some(nanos) => nanos,
            None => {
                return None;
            },
        };
        let last_updated_at = match millis_to_nanos(self.last_updated_at_in_millis) {
            Some(nanos) => nanos,
            None => {
                return None;
            },
        };
        Some(
            Account::from_storage(
                self.uuid,
                self.currency.clone(),
                self.balance,
                created_at,
                last_updated_at,
                self.version,
            ),
        )
    }
}

} // verus!

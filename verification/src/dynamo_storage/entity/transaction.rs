//! The stored form of a transaction.

use vstd::prelude::*;

use crate::decimal::decimal_parts;
use crate::dynamo_storage::entity::utils::{
    amount_or_zero, get_bigdecimal, get_i64, get_string, get_uuid, integer_at, item_view,
    number_at, string_at, Attribute, AttributeView,
};
use crate::model::transaction::{Transaction, TransactionView};
use crate::money::Money;
use crate::token::uuid_of_text;

verus! {

/// A transaction as the document store holds it.
#[derive(Debug, PartialEq, Eq)]
pub struct TransactionEntity {
    pub id: u128,
    pub idempotency_key: String,
    pub account_version: u128,
    pub account_id: u128,
    pub amount: Money,
    pub created_at_in_nanos: i64,
    pub currency: String,
}

impl View for TransactionEntity {
    type V = TransactionView;

    open spec fn view(&self) -> TransactionView {
        TransactionView {
            id: self.id,
            idempotency_key: self.idempotency_key@,
            account_version: self.account_version,
            account_id: self.account_id,
            amount: self.amount@,
            created_at: self.created_at_in_nanos as int,
            currency: self.currency@,
        }
    }
}

/// What an item decodes to: the three identifiers must be tokens; every other
/// attribute falls back to its default.
pub open spec fn transaction_of_item(item: Seq<AttributeView>) -> Option<TransactionView> {
    match (
        uuid_of_text(string_at(item, "id"@)),
        uuid_of_text(string_at(item, "account_version"@)),
        uuid_of_text(string_at(item, "account_id"@)),
    ) {
        (Some(id), Some(account_version), Some(account_id)) => Some(
            TransactionView {
                id,
                idempotency_key: string_at(item, "idempotency_key"@),
                account_version,
                account_id,
                amount: amount_or_zero(
                    match number_at(item, "amount"@) {
                        Some(text) => Some(decimal_parts(text)),
                        None => None,
                    },
                )@,
                created_at: integer_at(item, "created_at_in_nanos"@) as int,
                currency: string_at(item, "currency"@),
            },
        ),
        _ => None,
    }
}

impl TransactionEntity {
    /// Decodes an item. `None` where one of the three identifiers is missing
    /// or is no token.
    pub fn from_item(value: &Vec<Attribute>) -> (r: Option<TransactionEntity>)
        ensures
            match r {
                Some(entity) => transaction_of_item(item_view(value@)) == Some(entity@),
                None => transaction_of_item(item_view(value@)) is None,
            },
    {
        let id = match get_uuid(value, "id") {
            Some(id) => id,
            None => {
                return None;
            },
        };
        let account_version = match get_uuid(value, "account_version") {
            Some(version) => version,
            None => {
                return None;
            },
        };
        let account_id = match get_uuid(value, "account_id") {
            Some(account_id) => account_id,
            None => {
                return None;
            },
        };
        Some(
            TransactionEntity {
                id,
                idempotency_key: get_string(value, "idempotency_key"),
                account_version,
                account_id,
                amount: get_bigdecimal(value, "amount"),
                created_at_in_nanos: get_i64(value, "created_at_in_nanos"),
                currency: get_string(value, "currency"),
            },
        )
    }

    /// The transaction this entity stands for.
    pub fn to_transaction(&self) -> (t: Transaction)
        ensures
            t@ == self@,
    {
        Transaction {
            id: self.id,
            idempotency_key: self.idempotency_key.clone(),
            account_version: self.account_version,
            account_id: self.account_id,
            amount: self.amount,
            created_at: self.created_at_in_nanos,
            currency: self.currency.clone(),
        }
    }
}

} // verus!

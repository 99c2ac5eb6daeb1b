//! What is written to the document store: the item of an account, the item of
//! a transaction, and the transactional write that carries an atomic batch.

use vstd::prelude::*;
use vstd::string::StringExecFns;

use crate::clock::nanos_to_millis;
use crate::decimal::decimal_text;
use crate::dynamo_storage::entity::account::{
    account_of_entity, account_of_item, AccountEntity,
};
use crate::dynamo_storage::entity::utils::{
    item_view, Attribute, AttributeValue, AttributeValueView, AttributeView,
};
use crate::error::LedgerError;
use crate::ledger::AccountUpdate;
use crate::model::account::{Account, AccountView};
use crate::model::transaction::Transaction;
use crate::number::{format_integer, integer_text};
use crate::token::{format_uuid, uuid_text};

verus! {

/// The one table that holds accounts and transactions.
pub const TABLE_NAME: &'static str = "mini_ledger";

/// A string attribute.
pub open spec fn text_attribute(name: Seq<char>, value: Seq<char>) -> AttributeView {
    AttributeView { name, value: AttributeValueView::S(value) }
}

/// A number attribute.
pub open spec fn number_attribute(name: Seq<char>, value: Seq<char>) -> AttributeView {
    AttributeView { name, value: AttributeValueView::N(value) }
}

/// The key under which an account is stored: `acc#` and its identifier.
pub open spec fn account_key(uuid: u128) -> Seq<char> {
    "acc#"@ + uuid_text(uuid)
}

/// A key: a prefix followed by the text of an identifier.
pub fn format_pk(prefix: &str, id: u128) -> (s: String)
    ensures
        s@ == prefix@ + uuid_text(id),
{
    let text = format_uuid(id);
    prefix.to_owned().concat(text.as_str())
}

fn create_attr_value(name: &str, value: String) -> (a: Attribute)
    ensures
        a@ == text_attribute(name@, value@),
{
    Attribute { name: name.to_owned(), value: AttributeValue::S(value) }
}

fn create_number_attr(name: &str, value: String) -> (a: Attribute)
    ensures
        a@ == number_attribute(name@, value@),
{
    Attribute { name: name.to_owned(), value: AttributeValue::N(value) }
}

/// The item of an account: its key twice (partition and sort), then its
/// fields, the timestamps in whole milliseconds.
pub open spec fn account_item_of(account: Account) -> Seq<AttributeView> {
    seq![
        text_attribute("pk"@, account_key(account.uuid)),
        text_attribute("sk"@, account_key(account.uuid)),
        text_attribute("uuid"@, uuid_text(account.uuid)),
        text_attribute("currency"@, account.currency@),
        number_attribute("balance"@, decimal_text(account.balance.minor_units)),
        number_attribute(
            "created_at_in_millis"@,
            integer_text(account.created_at as int / 1_000_000),
        ),
        number_attribute(
            "last_updated_at_in_millis"@,
            integer_text(account.last_updated_at as int / 1_000_000),
        ),
        text_attribute("version"@, uuid_text(account.version)),
    ]
}

/// Builds the item that stores an account.
pub fn account_item(account: &Account) -> (item: Vec<Attribute>)
    ensures
        item_view(item@) == account_item_of(*account),
{
    let mut item: Vec<Attribute> = Vec::new();
    item.push(create_attr_value("pk", format_pk("acc#", account.uuid)));
    item.push(create_attr_value("sk", format_pk("acc#", account.uuid)));
    item.push(create_attr_value("uuid", format_uuid(account.uuid)));
    item.push(create_attr_value("currency", account.currency.clone()));
    item.push(create_number_attr("balance", account.balance.to_text()));
    item.push(
        create_number_attr(
            "created_at_in_millis",
            format_integer(nanos_to_millis(account.created_at)),
        ),
    );
    item.push(
        create_number_attr(
            "last_updated_at_in_millis",
            format_integer(nanos_to_millis(account.last_updated_at)),
        ),
    );
    item.push(create_attr_value("version", format_uuid(account.version)));
    assert(item_view(item@) =~= account_item_of(*account));
    item
}

/// The item of a transaction: filed under its account, sorted by its own
/// identifier.
pub open spec fn transaction_item_of(entry: Transaction) -> Seq<AttributeView> {
    seq![
        text_attribute("pk"@, "tx#acc#"@ + uuid_text(entry.account_id)),
        text_attribute("sk"@, "tx#"@ + uuid_text(entry.id)),
        text_attribute("account_id"@, uuid_text(entry.account_id)),
        text_attribute("account_version"@, uuid_text(entry.account_version)),
        number_attribute("amount"@, decimal_text(entry.amount.minor_units)),
        number_attribute("created_at_in_nanos"@, integer_text(entry.created_at as int)),
        text_attribute("currency"@, entry.currency@),
        text_attribute("id"@, uuid_text(entry.id)),
        text_attribute("idempotency_key"@, entry.idempotency_key@),
    ]
}

/// Builds the item that stores a transaction.
pub fn transaction_item(entry: &Transaction) -> (item: Vec<Attribute>)
    ensures
        item_view(item@) == transaction_item_of(*entry),
{
    let mut item: Vec<Attribute> = Vec::new();
    item.push(create_attr_value("pk", format_pk("tx#acc#", entry.account_id)));
    item.push(create_attr_value("sk", format_pk("tx#", entry.id)));
    item.push(create_attr_value("account_id", format_uuid(entry.account_id)));
    item.push(create_attr_value("account_version", format_uuid(entry.account_version)));
    item.push(create_number_attr("amount", entry.amount.to_text()));
    item.push(create_number_attr("created_at_in_nanos", format_integer(entry.created_at)));
    item.push(create_attr_value("currency", entry.currency.clone()));
    item.push(create_attr_value("id", format_uuid(entry.id)));
    item.push(create_attr_value("idempotency_key", entry.idempotency_key.clone()));
    assert(item_view(item@) =~= transaction_item_of(*entry));
    item
}

/// One operation of a transactional write.
#[derive(Debug, PartialEq, Eq)]
pub enum TransactWrite {
    /// Store an item.
    Put { item: Vec<Attribute> },
    /// Change the item under a key, if the condition holds of it.
    Update {
        key: Vec<Attribute>,
        update_expression: String,
        condition_expression: String,
        values: Vec<Attribute>,
    },
}

/// An operation of a transactional write as plain mathematical values.
pub enum TransactWriteView {
    Put { item: Seq<AttributeView> },
    Update {
        key: Seq<AttributeView>,
        update_expression: Seq<char>,
        condition_expression: Seq<char>,
        values: Seq<AttributeView>,
    },
}

impl View for TransactWrite {
    type V = TransactWriteView;

    open spec fn view(&self) -> TransactWriteView {
        match self {
            TransactWrite::Put { item } => TransactWriteView::Put { item: item_view(item@) },
            TransactWrite::Update {
                key,
                update_expression,
                condition_expression,
                values,
            } => TransactWriteView::Update {
                key: item_view(key@),
                update_expression: update_expression@,
                condition_expression: condition_expression@,
                values: item_view(values@),
            },
        }
    }
}

/// The write of one account update: under the key of the account, set the
/// balance, the time of the last update and the new version, on the condition
/// that the stored version is the expected one.
pub open spec fn update_of(update: AccountUpdate) -> TransactWriteView {
    TransactWriteView::Update {
        key: seq![
            text_attribute("pk"@, account_key(update.account.uuid)),
            text_attribute("sk"@, account_key(update.account.uuid)),
        ],
        update_expression: "SET balance = :amount, last_updated_at_in_millis = :updatedAt, version = :newVersion"@,
        condition_expression: "version = :expectedVersion"@,
        values: seq![
            number_attribute(":amount"@, decimal_text(update.account.balance.minor_units)),
            number_attribute(
                ":updatedAt"@,
                integer_text(update.account.last_updated_at as int / 1_000_000),
            ),
            text_attribute(":newVersion"@, uuid_text(update.account.version)),
            text_attribute(":expectedVersion"@, uuid_text(update.expected_version)),
        ],
    }
}

/// Builds the conditional write of one account update.
pub fn account_update(update: &AccountUpdate) -> (w: TransactWrite)
    ensures
        w@ == update_of(*update),
{
    let mut key: Vec<Attribute> = Vec::new();
    key.push(create_attr_value("pk", format_pk("acc#", update.account.uuid)));
    key.push(create_attr_value("sk", format_pk("acc#", update.account.uuid)));
    let mut values: Vec<Attribute> = Vec::new();
    values.push(create_number_attr(":amount", update.account.balance.to_text()));
    values.push(
        create_number_attr(
            ":updatedAt",
            format_integer(nanos_to_millis(update.account.last_updated_at)),
        ),
    );
    values.push(create_attr_value(":newVersion", format_uuid(update.account.version)));
    values.push(create_attr_value(":expectedVersion", format_uuid(update.expected_version)));
    let w = TransactWrite::Update {
        key,
        update_expression: "SET balance = :amount, last_updated_at_in_millis = :updatedAt, version = :newVersion".to_owned(),
        condition_expression: "version = :expectedVersion".to_owned(),
        values,
    };
    assert(w@->Update_key =~= update_of(*update)->Update_key);
    assert(w@->Update_values =~= update_of(*update)->Update_values);
    w
}

/// The operations of the transactional write that carries an atomic batch:
/// one put for each new transaction, in order, then one conditional update for
/// each account update, in order. No update goes without its condition.
pub open spec fn writes_of(
    created_transactions: Seq<Transaction>,
    updated_accounts: Seq<AccountUpdate>,
) -> Seq<TransactWriteView> {
    Seq::new(
        created_transactions.len() + updated_accounts.len(),
        |i: int|
            if i < created_transactions.len() {
                TransactWriteView::Put { item: transaction_item_of(created_transactions[i]) }
            } else {
                update_of(updated_accounts[i - created_transactions.len()])
            },
    )
}

/// The views of a sequence of operations, in order.
pub open spec fn write_views(writes: Seq<TransactWrite>) -> Seq<TransactWriteView> {
    writes.map_values(|w: TransactWrite| w@)
}

/// Turns an atomic batch into the operations of one transactional write.
pub fn transact_items(
    created_transactions: &Vec<Transaction>,
    updated_accounts: &Vec<AccountUpdate>,
) -> (writes: Vec<TransactWrite>)
    ensures
        write_views(writes@) == writes_of(created_transactions@, updated_accounts@),
{
    let ghost wanted = writes_of(created_transactions@, updated_accounts@);
    let mut writes: Vec<TransactWrite> = Vec::new();
    let mut i: usize = 0;
    while i < created_transactions.len()
        invariant
            i <= created_transactions.len(),
            wanted == writes_of(created_transactions@, updated_accounts@),
            writes@.len() == i,
            forall|k: int| 0 <= k < i ==> (#[trigger] writes@[k])@ == wanted[k],
        decreases created_transactions.len() - i,
    {
        writes.push(TransactWrite::Put { item: transaction_item(&created_transactions[i]) });
        i = i + 1;
    }
    let mut j: usize = 0;
    while j < updated_accounts.len()
        invariant
            j <= updated_accounts.len(),
            i == created_transactions.len(),
            wanted == writes_of(created_transactions@, updated_accounts@),
            writes@.len() == i + j,
            forall|k: int| 0 <= k < i + j ==> (#[trigger] writes@[k])@ == wanted[k],
        decreases updated_accounts.len() - j,
    {
        writes.push(account_update(&updated_accounts[j]));
        j = j + 1;
    }
    assert(write_views(writes@) =~= wanted);
    writes
}

/// What a query for an account found: no item is absence; otherwise the first
/// item counts, and one that decodes to no account is a failure of the store.
pub open spec fn account_found(items: Seq<Seq<AttributeView>>) -> Result<
    Option<AccountView>,
    LedgerError,
> {
    if items.len() == 0 {
        Ok(None)
    } else {
        match account_of_item(items[0]) {
            None => Err(LedgerError::StorageUnavailable),
            Some(entity) => match account_of_entity(entity) {
                None => Err(LedgerError::StorageUnavailable),
                Some(account) => Ok(Some(account)),
            },
        }
    }
}

/// The views of the items of a query result, in order.
pub open spec fn item_views(items: Seq<Vec<Attribute>>) -> Seq<Seq<AttributeView>> {
    items.map_values(|item: Vec<Attribute>| item_view(item@))
}

/// Reads the account out of the items a query returned.
pub fn found_account(items: &Vec<Vec<Attribute>>) -> (r: Result<Option<Account>, LedgerError>)
    ensures
        match r {
            Ok(Some(account)) => account_found(item_views(items@)) == Ok::<
                Option<AccountView>,
                LedgerError,
            >(Some(account@)),
            Ok(None) => account_found(item_views(items@)) == Ok::<Option<AccountView>, LedgerError>(
                None,
            ),
            Err(e) => account_found(item_views(items@)) == Err::<Option<AccountView>, LedgerError>(
                e,
            ),
        },
{
    if items.len() == 0 {
        return Ok(None);
    }
    assert(item_views(items@)[0] == item_view(items@[0]@));
    match AccountEntity::from_item(&items[0]) {
        None => Err(LedgerError::StorageUnavailable),
        Some(entity) => match entity.to_account() {
            None => Err(LedgerError::StorageUnavailable),
            Some(account) => Ok(Some(account)),
        },
    }
}

} // verus!

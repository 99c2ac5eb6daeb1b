//! Statements with their bound values, and the decoding of a row.

use vstd::prelude::*;

use crate::decimal::{decimal_parts, decimal_text, money_of_parts};
use crate::ledger::AccountUpdate;
use crate::model::account::{Account, AccountView};
use crate::model::transaction::Transaction;
use crate::money::Money;

verus! {

/// A value bound to a marker of a statement.
#[derive(Debug, PartialEq, Eq)]
pub enum BoundValue {
    Uuid(u128),
    Text(String),
    BigInt(i64),
}

/// A bound value as plain mathematical values.
pub enum BoundValueView {
    Uuid(u128),
    Text(Seq<char>),
    BigInt(int),
}

impl View for BoundValue {
    type V = BoundValueView;

    open spec fn view(&self) -> BoundValueView {
        match self {
            BoundValue::Uuid(id) => BoundValueView::Uuid(*id),
            BoundValue::Text(text) => BoundValueView::Text(text@),
            BoundValue::BigInt(n) => BoundValueView::BigInt(*n as int),
        }
    }
}

/// A statement and the values bound to its markers, in order.
#[derive(Debug, PartialEq, Eq)]
pub struct Statement {
    pub query: String,
    pub values: Vec<BoundValue>,
}

/// A statement as plain mathematical values.
pub struct StatementView {
    pub query: Seq<char>,
    pub values: Seq<BoundValueView>,
}

impl View for Statement {
    type V = StatementView;

    open spec fn view(&self) -> StatementView {
        StatementView {
            query: self.query@,
            values: self.values@.map_values(|v: BoundValue| v@),
        }
    }
}

/// The statement that stores a new account, unless its identifier is taken.
pub open spec fn insert_account_of(account: Account) -> StatementView {
    StatementView {
        query: "INSERT INTO mini_ledger.accounts (id, currency, balance, created_at_in_nanos, last_updated_at_in_nanos, version) VALUES (?, ?, ?, ?, ?, ?) IF NOT EXISTS"@,
        values: seq![
            BoundValueView::Uuid(account.uuid),
            BoundValueView::Text(account.currency@),
            BoundValueView::Text(decimal_text(account.balance.minor_units)),
            BoundValueView::BigInt(account.created_at as int),
            BoundValueView::BigInt(account.last_updated_at as int),
            BoundValueView::Uuid(account.version),
        ],
    }
}

/// Builds the statement that stores a new account.
pub fn insert_account(account: &Account) -> (s: Statement)
    ensures
        s@ == insert_account_of(*account),
{
    let mut values: Vec<BoundValue> = Vec::new();
    values.push(BoundValue::Uuid(account.uuid));
    values.push(BoundValue::Text(account.currency.clone()));
    values.push(BoundValue::Text(account.balance.to_text()));
    values.push(BoundValue::BigInt(account.created_at));
    values.push(BoundValue::BigInt(account.last_updated_at));
    values.push(BoundValue::Uuid(account.version));
    let s = Statement {
        query: "INSERT INTO mini_ledger.accounts (id, currency, balance, created_at_in_nanos, last_updated_at_in_nanos, version) VALUES (?, ?, ?, ?, ?, ?) IF NOT EXISTS".to_owned(),
        values,
    };
    assert(s@.values =~= insert_account_of(*account).values);
    s
}

/// The statement that reads the account of an identifier.
pub open spec fn select_account_of(uuid: u128) -> StatementView {
    StatementView {
        query: "SELECT id, currency, balance, created_at_in_nanos, last_updated_at_in_nanos, version FROM mini_ledger.accounts WHERE id = ?"@,
        values: seq![BoundValueView::Uuid(uuid)],
    }
}

/// Builds the statement that reads an account.
pub fn select_account(uuid: u128) -> (s: Statement)
    ensures
        s@ == select_account_of(uuid),
{
    let mut values: Vec<BoundValue> = Vec::new();
    values.push(BoundValue::Uuid(uuid));
    let s = Statement {
        query: "SELECT id, currency, balance, created_at_in_nanos, last_updated_at_in_nanos, version FROM mini_ledger.accounts WHERE id = ?".to_owned(),
        values,
    };
    assert(s@.values =~= select_account_of(uuid).values);
    s
}

/// The statement that records a transaction.
pub open spec fn insert_transaction_of(entry: Transaction) -> StatementView {
    StatementView {
        query: "INSERT INTO mini_ledger.transactions_by_account_time_range (idempotency_key, id, account_id, account_version, amount, created_at_in_nanos, currency) VALUES (?, ?, ?, ?, ?, ?, ?) IF NOT EXISTS"@,
        values: seq![
            BoundValueView::Text(entry.idempotency_key@),
            BoundValueView::Uuid(entry.id),
            BoundValueView::Uuid(entry.account_id),
            BoundValueView::Uuid(entry.account_version),
            BoundValueView::Text(decimal_text(entry.amount.minor_units)),
            BoundValueView::BigInt(entry.created_at as int),
            BoundValueView::Text(entry.currency@),
        ],
    }
}

/// Builds the statement that records a transaction.
pub fn insert_transaction(entry: &Transaction) -> (s: Statement)
    ensures
        s@ == insert_transaction_of(*entry),
{
    let mut values: Vec<BoundValue> = Vec::new();
    values.push(BoundValue::Text(entry.idempotency_key.clone()));
    values.push(BoundValue::Uuid(entry.id));
    values.push(BoundValue::Uuid(entry.account_id));
    values.push(BoundValue::Uuid(entry.account_version));
    values.push(BoundValue::Text(entry.amount.to_text()));
    values.push(BoundValue::BigInt(entry.created_at));
    values.push(BoundValue::Text(entry.currency.clone()));
    let s = Statement {
        query: "INSERT INTO mini_ledger.transactions_by_account_time_range (idempotency_key, id, account_id, account_version, amount, created_at_in_nanos, currency) VALUES (?, ?, ?, ?, ?, ?, ?) IF NOT EXISTS".to_owned(),
        values,
    };
    assert(s@.values =~= insert_transaction_of(*entry).values);
    s
}

/// The statement of one account update: set the balance, the time of the last
/// update and the new version of the row of the account, if its version is
/// the expected one.
pub open spec fn update_account_of(update: AccountUpdate) -> StatementView {
    StatementView {
        query: "UPDATE mini_ledger.accounts SET balance = ?, last_updated_at_in_nanos = ?, version = ? WHERE id = ? IF version = ?"@,
        values: seq![
            BoundValueView::Text(decimal_text(update.account.balance.minor_units)),
            BoundValueView::BigInt(update.account.last_updated_at as int),
            BoundValueView::Uuid(update.account.version),
            BoundValueView::Uuid(update.account.uuid),
            BoundValueView::Uuid(update.expected_version),
        ],
    }
}

/// Builds the conditional statement of one account update.
pub fn update_account(update: &AccountUpdate) -> (s: Statement)
    ensures
        s@ == update_account_of(*update),
{
    let mut values: Vec<BoundValue> = Vec::new();
    values.push(BoundValue::Text(update.account.balance.to_text()));
    values.push(BoundValue::BigInt(update.account.last_updated_at));
    values.push(BoundValue::Uuid(update.account.version));
    values.push(BoundValue::Uuid(update.account.uuid));
    values.push(BoundValue::Uuid(update.expected_version));
    let s = Statement {
        query: "UPDATE mini_ledger.accounts SET balance = ?, last_updated_at_in_nanos = ?, version = ? WHERE id = ? IF version = ?".to_owned(),
        values,
    };
    assert(s@.values =~= update_account_of(*update).values);
    s
}

/// The statements of the logged batch that carries an atomic batch: one
/// insert for each new transaction, in order, then one conditional update for
/// each account update, in order. No update goes without its condition.
pub open spec fn batch_of(
    created_transactions: Seq<Transaction>,
    updated_accounts: Seq<AccountUpdate>,
) -> Seq<StatementView> {
    Seq::new(
        created_transactions.len() + updated_accounts.len(),
        |i: int|
            if i < created_transactions.len() {
                insert_transaction_of(created_transactions[i])
            } else {
                update_account_of(updated_accounts[i - created_transactions.len()])
            },
    )
}

/// The views of a sequence of statements, in order.
pub open spec fn statement_views(statements: Seq<Statement>) -> Seq<StatementView> {
    statements.map_values(|s: Statement| s@)
}

/// Turns an atomic batch into the statements of one logged batch.
pub fn batch_statements(
    created_transactions: &Vec<Transaction>,
    updated_accounts: &Vec<AccountUpdate>,
) -> (statements: Vec<Statement>)
    ensures
        statement_views(statements@) == batch_of(created_transactions@, updated_accounts@),
{
    let ghost wanted = batch_of(created_transactions@, updated_accounts@);
    let mut statements: Vec<Statement> = Vec::new();
    let mut i: usize = 0;
    while i < created_transactions.len()
        invariant
            i <= created_transactions.len(),
            wanted == batch_of(created_transactions@, updated_accounts@),
            statements@.len() == i,
            forall|k: int| 0 <= k < i ==> (#[trigger] statements@[k])@ == wanted[k],
        decreases created_transactions.len() - i,
    {
        statements.push(insert_transaction(&created_transactions[i]));
        i = i + 1;
    }
    let mut j: usize = 0;
    while j < updated_accounts.len()
        invariant
            j <= updated_accounts.len(),
            i == created_transactions.len(),
            wanted == batch_of(created_transactions@, updated_accounts@),
            statements@.len() == i + j,
            forall|k: int| 0 <= k < i + j ==> (#[trigger] statements@[k])@ == wanted[k],
        decreases updated_accounts.len() - j,
    {
        statements.push(update_account(&updated_accounts[j]));
        j = j + 1;
    }
    assert(statement_views(statements@) =~= wanted);
    statements
}

/// The account a row stands for, given what the decimal parser read from its
/// balance: `None` where the balance is no representable amount.
pub open spec fn account_of_row(
    uuid: u128,
    currency: Seq<char>,
    balance: Option<(i128, i64)>,
    created_at_in_nanos: i64,
    last_updated_at_in_nanos: i64,
    version: u128,
) -> Option<AccountView> {
    match money_of_parts(balance) {
        None => None,
        Some(money) => Some(
            AccountView {
                uuid,
                currency,
                balance: money@,
                created_at: created_at_in_nanos as int,
                last_updated_at: last_updated_at_in_nanos as int,
                version,
            },
        ),
    }
}

/// Decodes the row of an account. The balance comes as decimal text and is
/// read at two digits after the point.
pub fn account_from_row(
    uuid: u128,
    currency: String,
    balance: &str,
    created_at_in_nanos: i64,
    last_updated_at_in_nanos: i64,
    version: u128,
) -> (r: Option<Account>)
    ensures
        match r {
            Some(account) => account_of_row(
                uuid,
                currency@,
                decimal_parts(balance@),
                created_at_in_nanos,
                last_updated_at_in_nanos,
                version,
            ) == Some(account@),
            None => account_of_row(
                uuid,
                currency@,
                decimal_parts(balance@),
                created_at_in_nanos,
                last_updated_at_in_nanos,
                version,
            ) is None,
        },
{
    match Money::parse(balance) {
        None => None,
        Some(money) => Some(
            Account::from_storage(
                uuid,
                currency,
                money,
                created_at_in_nanos,
                last_updated_at_in_nanos,
                version,
            ),
        ),
    }
}

} // verus!

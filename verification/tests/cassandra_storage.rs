use mini_ledger::cassandra_storage::storage::{
    account_from_row, batch_statements, insert_account, insert_transaction, select_account,
    update_account, BoundValue, Statement,
};
use mini_ledger::ledger::AccountUpdate;
use mini_ledger::model::account::Account;
use mini_ledger::model::transaction::Transaction;
use mini_ledger::money::Money;

fn text(value: &str) -> BoundValue {
    BoundValue::Text(value.to_string())
}

#[test]
fn an_account_is_inserted_if_it_does_not_exist() {
    let account = Account::from_storage(7, "BRL".to_string(), Money::from_minor_units(6001), 10, 20, 9);
    assert_eq!(
        insert_account(&account),
        Statement {
            query: "INSERT INTO mini_ledger.accounts (id, currency, balance, created_at_in_nanos, last_updated_at_in_nanos, version) VALUES (?, ?, ?, ?, ?, ?) IF NOT EXISTS".to_string(),
            values: vec![
                BoundValue::Uuid(7),
                text("BRL"),
                text("60.01"),
                BoundValue::BigInt(10),
                BoundValue::BigInt(20),
                BoundValue::Uuid(9),
            ],
        }
    );
}

#[test]
fn an_account_is_selected_by_its_identifier() {
    assert_eq!(
        select_account(7),
        Statement {
            query: "SELECT id, currency, balance, created_at_in_nanos, last_updated_at_in_nanos, version FROM mini_ledger.accounts WHERE id = ?".to_string(),
            values: vec![BoundValue::Uuid(7)],
        }
    );
}

#[test]
fn a_transaction_is_inserted_with_all_its_fields() {
    let account = Account::from_storage(7, "BRL".to_string(), Money::zero(), 10, 20, 9);
    let entry = Transaction::stamped(&account, "idemp_1", &Money::from_minor_units(-3999), 5, 30);
    assert_eq!(
        insert_transaction(&entry),
        Statement {
            query: "INSERT INTO mini_ledger.transactions_by_account_time_range (idempotency_key, id, account_id, account_version, amount, created_at_in_nanos, currency) VALUES (?, ?, ?, ?, ?, ?, ?) IF NOT EXISTS".to_string(),
            values: vec![
                text("idemp_1"),
                BoundValue::Uuid(5),
                BoundValue::Uuid(7),
                BoundValue::Uuid(9),
                text("-39.99"),
                BoundValue::BigInt(30),
                text("BRL"),
            ],
        }
    );
}

#[test]
fn an_account_is_updated_only_at_the_expected_version() {
    let update = AccountUpdate {
        account: Account::from_storage(7, "BRL".to_string(), Money::from_minor_units(7000), 10, 40, 12),
        expected_version: 9,
    };
    assert_eq!(
        update_account(&update),
        Statement {
            query: "UPDATE mini_ledger.accounts SET balance = ?, last_updated_at_in_nanos = ?, version = ? WHERE id = ? IF version = ?".to_string(),
            values: vec![
                text("70.00"),
                BoundValue::BigInt(40),
                BoundValue::Uuid(12),
                BoundValue::Uuid(7),
                BoundValue::Uuid(9),
            ],
        }
    );
}

#[test]
fn a_batch_becomes_inserts_then_conditional_updates() {
    let from = Account::from_storage(1, "BRL".to_string(), Money::from_minor_units(10000), 1, 2, 10);
    let to = Account::from_storage(2, "BRL".to_string(), Money::zero(), 1, 2, 20);
    let entries = vec![
        Transaction::stamped(&from, "t", &Money::from_minor_units(-3000), 100, 50),
        Transaction::stamped(&to, "t", &Money::from_minor_units(3000), 101, 51),
    ];
    let updates = vec![
        AccountUpdate { account: from.with_balance(Money::from_minor_units(7000), 50, 11), expected_version: 10 },
        AccountUpdate { account: to.with_balance(Money::from_minor_units(3000), 51, 21), expected_version: 20 },
    ];
    let statements = batch_statements(&entries, &updates);
    assert_eq!(
        statements,
        vec![
            insert_transaction(&entries[0]),
            insert_transaction(&entries[1]),
            update_account(&updates[0]),
            update_account(&updates[1]),
        ]
    );
    for (statement, update) in statements[2..].iter().zip(updates.iter()) {
        assert!(statement.query.ends_with("IF version = ?"));
        assert_eq!(statement.values.last(), Some(&BoundValue::Uuid(update.expected_version)));
    }
    assert!(batch_statements(&Vec::new(), &Vec::new()).is_empty());
}

#[test]
fn a_row_is_decoded_with_its_balance_at_two_digits() {
    assert_eq!(
        account_from_row(7, "BRL".to_string(), "60.019", 10, 20, 9),
        Some(Account::from_storage(7, "BRL".to_string(), Money::from_minor_units(6001), 10, 20, 9))
    );
    assert_eq!(
        account_from_row(7, "BRL".to_string(), "0", 10, 20, 9),
        Some(Account::from_storage(7, "BRL".to_string(), Money::zero(), 10, 20, 9))
    );
    assert_eq!(account_from_row(7, "BRL".to_string(), "", 10, 20, 9), None);
    assert_eq!(account_from_row(7, "BRL".to_string(), "a lot", 10, 20, 9), None);
}

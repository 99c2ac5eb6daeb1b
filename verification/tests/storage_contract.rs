use mini_ledger::dto::transaction::{
    DepositTransactionDTO, TransferTransactionDTO, WithdrawalTransactionDTO,
};
use mini_ledger::error::LedgerError;
use mini_ledger::ledger::AccountUpdate;
use mini_ledger::model::account::Account;
use mini_ledger::model::transaction::Transaction;
use mini_ledger::money::Money;
use mini_ledger::plan::Stamp;
use mini_ledger::storage::in_memory::InMemoryStorage;
use mini_ledger::storage::{concluded, Storage, WriteOutcome};

fn account(uuid: u128, balance: i128, version: u128) -> Account {
    Account::from_storage(uuid, "BRL".to_string(), Money::from_minor_units(balance), 10, 20, version)
}

fn entry(id: u128, account: &Account, amount: i128) -> Transaction {
    Transaction::stamped(account, "key", &Money::from_minor_units(amount), id, 30)
}

#[test]
fn a_new_store_holds_nothing() {
    let storage = InMemoryStorage::new();
    assert_eq!(storage.get_account(1), Ok(None));
    assert!(storage.transactions().is_empty());
}

#[test]
fn save_account_writes_and_overwrites() {
    let mut storage = InMemoryStorage::new();
    assert_eq!(storage.save_account(account(1, 0, 100)), Ok(()));
    assert_eq!(storage.get_account(1), Ok(Some(account(1, 0, 100))));
    assert_eq!(storage.save_account(account(1, 500, 101)), Ok(()));
    assert_eq!(storage.get_account(1), Ok(Some(account(1, 500, 101))));
    assert_eq!(storage.get_account(2), Ok(None));
}

#[test]
fn set_accounts_files_each_account_under_its_identifier() {
    let mut storage = InMemoryStorage::new();
    storage.set_accounts(vec![account(1, 1, 100), account(2, 2, 200), account(1, 3, 300)]);
    assert_eq!(storage.get_account(1), Ok(Some(account(1, 3, 300))));
    assert_eq!(storage.get_account(2), Ok(Some(account(2, 2, 200))));
    storage.set_accounts(vec![account(3, 0, 1)]);
    assert_eq!(storage.get_account(1), Ok(None));
    assert_eq!(storage.get_account(3), Ok(Some(account(3, 0, 1))));
}

#[test]
fn atomic_apply_writes_the_whole_batch() {
    let a = account(1, 10000, 100);
    let b = account(2, 0, 200);
    let mut storage = InMemoryStorage::new();
    storage.set_accounts(vec![a.clone(), b.clone()]);
    let entries = vec![entry(11, &a, -3000), entry(12, &b, 3000)];
    let updates = vec![
        AccountUpdate { account: account(1, 7000, 101), expected_version: 100 },
        AccountUpdate { account: account(2, 3000, 201), expected_version: 200 },
    ];
    let result = storage.atomic_apply(entries.clone(), updates);
    assert_eq!(result, Ok(entries.clone()));
    assert_eq!(storage.get_account(1), Ok(Some(account(1, 7000, 101))));
    assert_eq!(storage.get_account(2), Ok(Some(account(2, 3000, 201))));
    assert_eq!(storage.transactions(), entries);
}

#[test]
fn atomic_apply_with_one_stale_version_writes_nothing() {
    let a = account(1, 10000, 100);
    let b = account(2, 0, 200);
    let mut storage = InMemoryStorage::new();
    storage.set_accounts(vec![a.clone(), b.clone()]);
    let entries = vec![entry(11, &a, -3000), entry(12, &b, 3000)];
    let updates = vec![
        AccountUpdate { account: account(1, 7000, 101), expected_version: 100 },
        AccountUpdate { account: account(2, 3000, 201), expected_version: 999 },
    ];
    assert_eq!(storage.atomic_apply(entries, updates), Err(LedgerError::VersionConflict));
    assert_eq!(storage.get_account(1), Ok(Some(a)));
    assert_eq!(storage.get_account(2), Ok(Some(b)));
    assert!(storage.transactions().is_empty());
}

#[test]
fn atomic_apply_on_a_missing_account_is_a_conflict() {
    let a = account(1, 0, 100);
    let mut storage = InMemoryStorage::new();
    let updates = vec![AccountUpdate { account: account(1, 5, 101), expected_version: 100 }];
    assert_eq!(
        storage.atomic_apply(vec![entry(11, &a, 5)], updates),
        Err(LedgerError::VersionConflict)
    );
    assert_eq!(storage.get_account(1), Ok(None));
    assert!(storage.transactions().is_empty());
}

#[test]
fn atomic_apply_refuses_a_batch_that_writes_one_account_twice() {
    let a = account(1, 100, 100);
    let mut storage = InMemoryStorage::new();
    storage.set_accounts(vec![a.clone()]);
    let updates = vec![
        AccountUpdate { account: account(1, 50, 101), expected_version: 100 },
        AccountUpdate { account: account(1, 150, 102), expected_version: 100 },
    ];
    assert_eq!(storage.atomic_apply(Vec::new(), updates), Err(LedgerError::VersionConflict));
    assert_eq!(storage.get_account(1), Ok(Some(a)));
}

#[test]
fn atomic_apply_of_an_empty_batch_changes_nothing() {
    let a = account(1, 100, 100);
    let mut storage = InMemoryStorage::new();
    storage.set_accounts(vec![a.clone()]);
    assert_eq!(storage.atomic_apply(Vec::new(), Vec::new()), Ok(Vec::new()));
    assert_eq!(storage.get_account(1), Ok(Some(a)));
    assert!(storage.transactions().is_empty());
}

#[test]
fn of_two_writers_with_one_reading_the_second_conflicts() {
    let mut storage = InMemoryStorage::new();
    storage.set_accounts(vec![account(1, 0, 100)]);
    let read = storage.get_account(1).unwrap().unwrap();
    let first = DepositTransactionDTO {
        idempotency_key: "first".to_string(),
        account_id: 1,
        amount: Money::from_minor_units(1000),
    };
    let second = DepositTransactionDTO {
        idempotency_key: "second".to_string(),
        account_id: 1,
        amount: Money::from_minor_units(1000),
    };
    let first_batch = first.plan(Some(&read), &Stamp::draw()).unwrap();
    let second_batch = second.plan(Some(&read), &Stamp::draw()).unwrap();
    assert!(storage
        .atomic_apply(first_batch.new_transactions, first_batch.updated_accounts)
        .is_ok());
    assert_eq!(
        storage.atomic_apply(second_batch.new_transactions, second_batch.updated_accounts),
        Err(LedgerError::VersionConflict)
    );
    let after_conflict = storage.get_account(1).unwrap().unwrap();
    assert_eq!(after_conflict.balance.minor_units(), 1000);
    assert_eq!(storage.transactions().len(), 1);

    let retried = second.plan(Some(&after_conflict), &Stamp::draw()).unwrap();
    assert!(storage.atomic_apply(retried.new_transactions, retried.updated_accounts).is_ok());
    assert_eq!(storage.get_account(1).unwrap().unwrap().balance.minor_units(), 2000);
    assert_eq!(storage.transactions().len(), 2);
}

#[test]
fn racing_withdrawals_cannot_overdraw() {
    let mut storage = InMemoryStorage::new();
    storage.set_accounts(vec![account(1, 10000, 100)]);
    let read = storage.get_account(1).unwrap().unwrap();
    let request = WithdrawalTransactionDTO {
        idempotency_key: "w".to_string(),
        account_id: 1,
        amount: Money::from_minor_units(6000),
    };
    let first = request.plan(Some(&read), &Stamp::draw()).unwrap();
    let second = request.plan(Some(&read), &Stamp::draw()).unwrap();
    assert!(storage.atomic_apply(first.new_transactions, first.updated_accounts).is_ok());
    assert_eq!(
        storage.atomic_apply(second.new_transactions, second.updated_accounts),
        Err(LedgerError::VersionConflict)
    );
    let now = storage.get_account(1).unwrap().unwrap();
    assert_eq!(now.balance.minor_units(), 4000);
    assert_eq!(
        request.plan(Some(&now), &Stamp::draw()),
        Err(LedgerError::InsufficientBalance)
    );
}

#[test]
fn a_transfer_prepared_from_a_stale_destination_conflicts_whole() {
    let mut storage = InMemoryStorage::new();
    storage.set_accounts(vec![account(1, 10000, 100), account(2, 0, 200)]);
    let from = storage.get_account(1).unwrap().unwrap();
    let to = storage.get_account(2).unwrap().unwrap();
    let transfer = TransferTransactionDTO {
        idempotency_key: "t".to_string(),
        from_account_id: 1,
        to_account_id: 2,
        amount: Money::from_minor_units(3000),
    };
    let batch = transfer.plan(Some(&from), Some(&to), &Stamp::draw(), &Stamp::draw()).unwrap();
    let deposit = DepositTransactionDTO {
        idempotency_key: "d".to_string(),
        account_id: 2,
        amount: Money::from_minor_units(500),
    };
    let other = deposit.plan(Some(&to), &Stamp::draw()).unwrap();
    assert!(storage.atomic_apply(other.new_transactions, other.updated_accounts).is_ok());
    assert_eq!(
        storage.atomic_apply(batch.new_transactions, batch.updated_accounts),
        Err(LedgerError::VersionConflict)
    );
    assert_eq!(storage.get_account(1), Ok(Some(from)));
    assert_eq!(storage.get_account(2).unwrap().unwrap().balance.minor_units(), 500);
    assert_eq!(storage.transactions().len(), 1);
}

#[test]
fn every_balance_is_the_sum_of_its_transactions() {
    let mut storage = InMemoryStorage::new();
    storage.set_accounts(vec![account(1, 0, 100), account(2, 0, 200)]);
    let amounts = [2500i128, 4000, 100];
    for amount in amounts {
        let read = storage.get_account(1).unwrap().unwrap();
        let deposit = DepositTransactionDTO {
            idempotency_key: "d".to_string(),
            account_id: 1,
            amount: Money::from_minor_units(amount),
        };
        let batch = deposit.plan(Some(&read), &Stamp::draw()).unwrap();
        storage.atomic_apply(batch.new_transactions, batch.updated_accounts).unwrap();
    }
    let from = storage.get_account(1).unwrap().unwrap();
    let to = storage.get_account(2).unwrap().unwrap();
    let transfer = TransferTransactionDTO {
        idempotency_key: "t".to_string(),
        from_account_id: 1,
        to_account_id: 2,
        amount: Money::from_minor_units(600),
    };
    let batch = transfer.plan(Some(&from), Some(&to), &Stamp::draw(), &Stamp::draw()).unwrap();
    storage.atomic_apply(batch.new_transactions, batch.updated_accounts).unwrap();
    for id in [1u128, 2] {
        let total: i128 = storage
            .transactions()
            .iter()
            .filter(|t| t.account_id == id)
            .map(|t| t.amount.minor_units())
            .sum();
        assert_eq!(storage.get_account(id).unwrap().unwrap().balance.minor_units(), total);
    }
    assert_eq!(storage.get_account(1).unwrap().unwrap().balance.minor_units(), 6000);
    assert_eq!(storage.get_account(2).unwrap().unwrap().balance.minor_units(), 600);
}

#[test]
fn the_outcome_of_a_native_write_decides_the_answer() {
    let a = account(1, 0, 100);
    let entries = vec![entry(11, &a, 5)];
    assert_eq!(concluded(WriteOutcome::Applied, entries.clone()), Ok(entries.clone()));
    assert_eq!(
        concluded(WriteOutcome::ConditionFailed, entries.clone()),
        Err(LedgerError::VersionConflict)
    );
    assert_eq!(
        concluded(WriteOutcome::Unreachable, entries),
        Err(LedgerError::StorageUnavailable)
    );
}

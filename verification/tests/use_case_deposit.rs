use mini_ledger::dto::transaction::DepositTransactionDTO;
use mini_ledger::error::LedgerError;
use mini_ledger::model::account::Account;
use mini_ledger::money::Money;
use mini_ledger::storage::in_memory::InMemoryStorage;
use mini_ledger::storage::Storage;
use mini_ledger::use_case::deposit::DepositUseCase;
use mini_ledger::use_case::UseCase;
use uuid::Uuid;

fn money(value: f64) -> Money {
    Money::from_minor_units((value * 100.0).round() as i128)
}

fn store_with(accounts: Vec<Account>) -> InMemoryStorage {
    let mut storage = InMemoryStorage::new();
    storage.set_accounts(accounts);
    storage
}

#[test]
fn deposit_test_execute_successful() {
    let account = Account::new(Uuid::new_v4().as_u128(), &"BRL".to_string());
    let mut use_case = DepositUseCase::new(store_with(vec![account.clone()]));

    let result = use_case.execute(DepositTransactionDTO {
        idempotency_key: String::from("idemp_1"),
        account_id: account.uuid,
        amount: money(99.99),
    });
    assert!(result.is_ok());
    let expected_txs = result.unwrap();
    assert_eq!(expected_txs.len(), 1);
    let tx = &expected_txs[0];
    assert_eq!(tx.amount, money(99.99));
    assert_eq!(tx.account_id, account.uuid);
    assert_eq!(tx.idempotency_key, String::from("idemp_1"));
    let account = use_case.storage.get_account(account.uuid).unwrap().unwrap();
    assert_eq!(account.balance, money(99.99));
}

#[test]
fn test_concurrent_successful() {
    let account = Account::new(Uuid::new_v4().as_u128(), &"BRL".to_string());
    let mut use_case = DepositUseCase::new(store_with(vec![account.clone()]));
    let deposit_amount = money(10.0);

    let mut successful_deposits = 0;
    for i in 0..10 {
        let result = use_case.execute(DepositTransactionDTO {
            idempotency_key: format!("idemp_{}", i),
            account_id: account.uuid,
            amount: deposit_amount,
        });
        assert!(result.is_ok());
        successful_deposits += 1;
    }
    assert_eq!(successful_deposits, 10);

    let updated_account = use_case.storage.get_account(account.uuid).unwrap().unwrap();
    let expected_balance = money(100.0);
    assert_eq!(updated_account.balance, expected_balance);
}

#[test]
fn deposit_test_account_not_found() {
    let account = Account::new(Uuid::new_v4().as_u128(), &"BRL".to_string());
    let mut use_case = DepositUseCase::new(InMemoryStorage::new());

    let result = use_case.execute(DepositTransactionDTO {
        idempotency_key: String::from("idemp_1"),
        account_id: account.uuid,
        amount: money(99.99),
    });
    assert!(result.is_err());
    assert_eq!(result.unwrap_err().message(), "Account not found");
}

#[test]
fn deposit_on_a_fresh_account_records_one_credit() {
    let account = Account::new(Uuid::new_v4().as_u128(), &"BRL".to_string());
    let mut use_case = DepositUseCase::new(store_with(vec![account.clone()]));
    let done = use_case
        .execute(DepositTransactionDTO {
            idempotency_key: String::from("k"),
            account_id: account.uuid,
            amount: money(100.00),
        })
        .unwrap();
    assert_eq!(done.len(), 1);
    assert_eq!(done[0].amount.minor_units(), 10000);
    assert_eq!(done[0].account_version, account.version);
    assert_eq!(done[0].currency, "BRL");
    let stored = use_case.storage.get_account(account.uuid).unwrap().unwrap();
    assert_eq!(stored.balance.minor_units(), 10000);
    assert_ne!(stored.version, account.version);
    assert_eq!(stored.last_updated_at, done[0].created_at);
    assert_eq!(stored.created_at, account.created_at);
    assert_eq!(stored.currency, account.currency);
    assert_eq!(use_case.storage.transactions(), done);
}

#[test]
fn deposit_rejects_zero_and_negative_amounts() {
    let account = Account::new(Uuid::new_v4().as_u128(), &"BRL".to_string());
    let mut use_case = DepositUseCase::new(store_with(vec![account.clone()]));
    for amount in [0i128, -1, -10000] {
        let result = use_case.execute(DepositTransactionDTO {
            idempotency_key: String::from("k"),
            account_id: account.uuid,
            amount: Money::from_minor_units(amount),
        });
        assert_eq!(result, Err(LedgerError::InvalidAmount));
    }
    assert_eq!(use_case.storage.get_account(account.uuid).unwrap(), Some(account));
    assert!(use_case.storage.transactions().is_empty());
}

#[test]
fn deposit_judges_the_amount_before_the_account() {
    let mut use_case = DepositUseCase::new(InMemoryStorage::new());
    let result = use_case.execute(DepositTransactionDTO {
        idempotency_key: String::from("k"),
        account_id: 1,
        amount: Money::zero(),
    });
    assert_eq!(result, Err(LedgerError::InvalidAmount));
}

#[test]
fn deposit_refuses_a_balance_that_does_not_fit() {
    let mut account = Account::new(Uuid::new_v4().as_u128(), &"BRL".to_string());
    account.balance = Money::from_minor_units(i128::MAX - 5);
    let mut use_case = DepositUseCase::new(store_with(vec![account.clone()]));
    let result = use_case.execute(DepositTransactionDTO {
        idempotency_key: String::from("k"),
        account_id: account.uuid,
        amount: Money::from_minor_units(6),
    });
    assert_eq!(result, Err(LedgerError::BalanceOverflow));
    assert_eq!(use_case.storage.get_account(account.uuid).unwrap(), Some(account.clone()));
    let result = use_case.execute(DepositTransactionDTO {
        idempotency_key: String::from("k"),
        account_id: account.uuid,
        amount: Money::from_minor_units(5),
    });
    assert!(result.is_ok());
    let stored = use_case.storage.get_account(account.uuid).unwrap().unwrap();
    assert_eq!(stored.balance.minor_units(), i128::MAX);
}

#[test]
fn resubmitting_an_idempotency_key_applies_twice() {
    let account = Account::new(Uuid::new_v4().as_u128(), &"BRL".to_string());
    let mut use_case = DepositUseCase::new(store_with(vec![account.clone()]));
    let first = use_case
        .execute(DepositTransactionDTO {
            idempotency_key: String::from("same"),
            account_id: account.uuid,
            amount: money(10.00),
        })
        .unwrap();
    let second = use_case
        .execute(DepositTransactionDTO {
            idempotency_key: String::from("same"),
            account_id: account.uuid,
            amount: money(10.00),
        })
        .unwrap();
    assert_eq!(first[0].idempotency_key, second[0].idempotency_key);
    assert_ne!(first[0].id, second[0].id);
    let stored = use_case.storage.get_account(account.uuid).unwrap().unwrap();
    assert_eq!(stored.balance, money(20.00));
    assert_eq!(use_case.storage.transactions().len(), 2);
}

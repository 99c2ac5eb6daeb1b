use mini_ledger::dto::account::AccountCreationDTO;
use mini_ledger::model::account::Account;
use mini_ledger::money::Money;
use mini_ledger::storage::in_memory::InMemoryStorage;
use mini_ledger::storage::Storage;
use mini_ledger::use_case::account::{CreateAccountUseCase, GetAccountByUuidUseCase};
use mini_ledger::use_case::UseCase;
use uuid::Uuid;

#[test]
fn create_test_execute_successful() {
    let test_uuid = Uuid::new_v4().as_u128();
    let account = Account::new(test_uuid, &"BRL".to_string());
    let mut use_case = CreateAccountUseCase::new(InMemoryStorage::new());
    let input = AccountCreationDTO { uuid: test_uuid, currency: "BRL".to_string() };
    let result = use_case.execute(input);
    assert!(result.is_ok());
    let stored_account = use_case.storage.get_account(test_uuid);
    assert!(stored_account.clone().is_ok());
    assert!(stored_account.clone().unwrap().is_some());
    let stored_account: Account = stored_account.unwrap().unwrap();
    assert_eq!(&stored_account.uuid, &account.uuid);
    assert_eq!(&stored_account.currency, &account.currency);
}

#[test]
fn create_opens_with_zero_balance_and_equal_timestamps() {
    let id = Uuid::new_v4().as_u128();
    let mut use_case = CreateAccountUseCase::new(InMemoryStorage::new());
    let created = use_case
        .execute(AccountCreationDTO { uuid: id, currency: "EUR".to_string() })
        .unwrap();
    assert_eq!(created.balance, Money::zero());
    assert_eq!(created.balance.minor_units(), 0);
    assert_eq!(created.created_at, created.last_updated_at);
    assert_eq!(use_case.storage.get_account(id).unwrap(), Some(created));
    assert!(use_case.storage.transactions().is_empty());
}

#[test]
fn create_keeps_an_account_that_exists() {
    let id = Uuid::new_v4().as_u128();
    let mut existing = Account::new(id, &"BRL".to_string());
    existing.balance = Money::from_minor_units(12345);
    let mut storage = InMemoryStorage::new();
    storage.set_accounts(vec![existing.clone()]);
    let mut use_case = CreateAccountUseCase::new(storage);
    let result = use_case.execute(AccountCreationDTO { uuid: id, currency: "USD".to_string() });
    assert_eq!(result, Ok(existing.clone()));
    assert_eq!(use_case.storage.get_account(id).unwrap(), Some(existing));
}

#[test]
fn get_by_uuid_test_execute_successful() {
    let test_id = Uuid::new_v4().as_u128();
    let account = Account::new(test_id, &"BRL".to_string());
    let mut storage = InMemoryStorage::new();
    storage.set_accounts(vec![account.clone()]);
    let mut use_case = GetAccountByUuidUseCase::new(storage);
    let result = use_case.execute(test_id);
    assert!(result.is_ok());
    assert_eq!(result.unwrap(), Some(account));
}

#[test]
fn test_execute_no_account_found() {
    let test_id = Uuid::new_v4().as_u128();
    let mut use_case = GetAccountByUuidUseCase::new(InMemoryStorage::new());
    let result = use_case.execute(test_id);
    assert!(result.is_ok());
    assert_eq!(result.unwrap(), None);
}

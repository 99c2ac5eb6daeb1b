use mini_ledger::dynamo_storage::entity::account::AccountEntity;
use mini_ledger::dynamo_storage::entity::transaction::TransactionEntity;
use mini_ledger::dynamo_storage::entity::utils::{
    find, get_bigdecimal, get_i64, get_string, get_uuid, Attribute, AttributeValue,
};
use mini_ledger::dynamo_storage::storage::{
    account_item, account_update, format_pk, found_account, transact_items, transaction_item,
    TransactWrite, TABLE_NAME,
};
use mini_ledger::error::LedgerError;
use mini_ledger::ledger::AccountUpdate;
use mini_ledger::model::account::Account;
use mini_ledger::model::transaction::Transaction;
use mini_ledger::money::Money;
use uuid::Uuid;

const A: u128 = 0xa1a2a3a4b1b2c1c2d1d2d3d4d5d6d7d8;
const A_TEXT: &str = "a1a2a3a4-b1b2-c1c2-d1d2-d3d4d5d6d7d8";
const B: u128 = 0x550e8400e29b41d4a716446655440000;
const B_TEXT: &str = "550e8400-e29b-41d4-a716-446655440000";
const C: u128 = 1;
const C_TEXT: &str = "00000000-0000-0000-0000-000000000001";

fn s(name: &str, value: &str) -> Attribute {
    Attribute { name: name.to_string(), value: AttributeValue::S(value.to_string()) }
}

fn n(name: &str, value: &str) -> Attribute {
    Attribute { name: name.to_string(), value: AttributeValue::N(value.to_string()) }
}

fn other(name: &str) -> Attribute {
    Attribute { name: name.to_string(), value: AttributeValue::Other }
}

fn stored_account() -> Vec<Attribute> {
    vec![
        s("pk", "acc#a1a2a3a4-b1b2-c1c2-d1d2-d3d4d5d6d7d8"),
        s("sk", "acc#a1a2a3a4-b1b2-c1c2-d1d2-d3d4d5d6d7d8"),
        s("uuid", A_TEXT),
        s("currency", "BRL"),
        n("balance", "60.01"),
        n("created_at_in_millis", "1700000000000"),
        n("last_updated_at_in_millis", "1700000000500"),
        s("version", B_TEXT),
    ]
}

#[test]
fn the_table_has_its_name() {
    assert_eq!(TABLE_NAME, "mini_ledger");
}

#[test]
fn attributes_are_found_by_name_first_match_first() {
    let item = vec![s("a", "1"), n("b", "2"), s("a", "3"), other("c")];
    assert_eq!(find(&item, "a"), Some(&AttributeValue::S("1".to_string())));
    assert_eq!(find(&item, "b"), Some(&AttributeValue::N("2".to_string())));
    assert_eq!(find(&item, "c"), Some(&AttributeValue::Other));
    assert_eq!(find(&item, "d"), None);
    assert_eq!(find(&item, ""), None);
    assert_eq!(find(&Vec::new(), "a"), None);
}

#[test]
fn strings_default_to_the_empty_string() {
    let item = vec![s("currency", "BRL"), n("balance", "1"), other("blob")];
    assert_eq!(get_string(&item, "currency"), "BRL");
    assert_eq!(get_string(&item, "balance"), "");
    assert_eq!(get_string(&item, "blob"), "");
    assert_eq!(get_string(&item, "missing"), "");
}

#[test]
fn tokens_are_read_in_every_form_the_parser_accepts() {
    let item = vec![
        s("hyphenated", A_TEXT),
        s("simple", "a1a2a3a4b1b2c1c2d1d2d3d4d5d6d7d8"),
        s("upper", "A1A2A3A4-B1B2-C1C2-D1D2-D3D4D5D6D7D8"),
        s("urn", "urn:uuid:a1a2a3a4-b1b2-c1c2-d1d2-d3d4d5d6d7d8"),
        s("braced", "{a1a2a3a4-b1b2-c1c2-d1d2-d3d4d5d6d7d8}"),
        s("short", "a1a2a3a4"),
        n("number", A_TEXT),
    ];
    for name in ["hyphenated", "simple", "upper", "urn", "braced"] {
        assert_eq!(get_uuid(&item, name), Some(A), "{}", name);
    }
    assert_eq!(get_uuid(&item, "short"), None);
    assert_eq!(get_uuid(&item, "number"), None);
    assert_eq!(get_uuid(&item, "missing"), None);
}

#[test]
fn amounts_default_to_zero() {
    let item = vec![n("balance", "60.01"), s("text", "60.01"), n("bad", "sixty"), n("long", "1.999")];
    assert_eq!(get_bigdecimal(&item, "balance"), Money::from_minor_units(6001));
    assert_eq!(get_bigdecimal(&item, "text"), Money::zero());
    assert_eq!(get_bigdecimal(&item, "bad"), Money::zero());
    assert_eq!(get_bigdecimal(&item, "missing"), Money::zero());
    assert_eq!(get_bigdecimal(&item, "long"), Money::from_minor_units(199));
}

#[test]
fn whole_numbers_default_to_zero() {
    let item = vec![n("at", "1700000000000"), n("neg", "-5"), s("text", "7"), n("bad", "1.5")];
    assert_eq!(get_i64(&item, "at"), 1_700_000_000_000);
    assert_eq!(get_i64(&item, "neg"), -5);
    assert_eq!(get_i64(&item, "text"), 0);
    assert_eq!(get_i64(&item, "bad"), 0);
    assert_eq!(get_i64(&item, "missing"), 0);
}

#[test]
fn an_account_is_decoded_from_its_item() {
    let entity = AccountEntity::from_item(&stored_account()).unwrap();
    assert_eq!(
        entity,
        AccountEntity {
            uuid: A,
            currency: "BRL".to_string(),
            balance: Money::from_minor_units(6001),
            created_at_in_millis: 1_700_000_000_000,
            last_updated_at_in_millis: 1_700_000_000_500,
            version: B,
        }
    );
    assert_eq!(
        entity.to_account(),
        Some(Account::from_storage(
            A,
            "BRL".to_string(),
            Money::from_minor_units(6001),
            1_700_000_000_000_000_000,
            1_700_000_000_500_000_000,
            B,
        ))
    );
}

#[test]
fn an_account_item_without_its_tokens_decodes_to_nothing() {
    let mut no_version = stored_account();
    no_version.pop();
    assert_eq!(AccountEntity::from_item(&no_version), None);
    let mut bad_uuid = stored_account();
    bad_uuid[2] = s("uuid", "not-a-token");
    assert_eq!(AccountEntity::from_item(&bad_uuid), None);
    assert_eq!(AccountEntity::from_item(&Vec::new()), None);
    let bare = vec![s("uuid", A_TEXT), s("version", B_TEXT)];
    assert_eq!(
        AccountEntity::from_item(&bare),
        Some(AccountEntity {
            uuid: A,
            currency: String::new(),
            balance: Money::zero(),
            created_at_in_millis: 0,
            last_updated_at_in_millis: 0,
            version: B,
        })
    );
}

#[test]
fn an_entity_with_a_time_beyond_the_range_is_no_account() {
    let entity = AccountEntity {
        uuid: A,
        currency: "BRL".to_string(),
        balance: Money::zero(),
        created_at_in_millis: 9_223_372_036_855,
        last_updated_at_in_millis: 0,
        version: B,
    };
    assert_eq!(entity.to_account(), None);
}

#[test]
fn a_transaction_is_decoded_from_its_item() {
    let item = vec![
        s("id", C_TEXT),
        s("idempotency_key", "idemp_1"),
        s("account_version", B_TEXT),
        s("account_id", A_TEXT),
        n("amount", "-39.99"),
        n("created_at_in_nanos", "1700000000000000001"),
        s("currency", "BRL"),
    ];
    let entity = TransactionEntity::from_item(&item).unwrap();
    assert_eq!(
        entity.to_transaction(),
        Transaction {
            id: C,
            idempotency_key: "idemp_1".to_string(),
            account_version: B,
            account_id: A,
            amount: Money::from_minor_units(-3999),
            created_at: 1_700_000_000_000_000_001,
            currency: "BRL".to_string(),
        }
    );
    assert_eq!(TransactionEntity::from_item(&item[1..].to_vec()), None);
}

#[test]
fn keys_are_a_prefix_and_the_hyphenated_token() {
    assert_eq!(format_pk("acc#", A), "acc#a1a2a3a4-b1b2-c1c2-d1d2-d3d4d5d6d7d8");
    assert_eq!(format_pk("tx#", C), "tx#00000000-0000-0000-0000-000000000001");
    assert_eq!(format_pk("", B), B_TEXT);
    let drawn = Uuid::new_v4();
    assert_eq!(format_pk("x", drawn.as_u128()), format!("x{}", drawn));
}

#[test]
fn an_account_is_laid_out_as_an_item_and_read_back() {
    let account = Account::from_storage(
        A,
        "BRL".to_string(),
        Money::from_minor_units(6001),
        1_700_000_000_000_999_999,
        1_700_000_000_500_000_000,
        B,
    );
    let item = account_item(&account);
    assert_eq!(item, stored_account());
    let back = AccountEntity::from_item(&item).unwrap().to_account().unwrap();
    assert_eq!(back.uuid, account.uuid);
    assert_eq!(back.balance, account.balance);
    assert_eq!(back.version, account.version);
    assert_eq!(back.created_at, 1_700_000_000_000_000_000);
}

#[test]
fn a_transaction_is_laid_out_as_an_item_and_read_back() {
    let entry = Transaction {
        id: C,
        idempotency_key: "idemp_1".to_string(),
        account_version: B,
        account_id: A,
        amount: Money::from_minor_units(-3999),
        created_at: 1_700_000_000_000_000_001,
        currency: "BRL".to_string(),
    };
    let item = transaction_item(&entry);
    assert_eq!(
        item,
        vec![
            s("pk", "tx#acc#a1a2a3a4-b1b2-c1c2-d1d2-d3d4d5d6d7d8"),
            s("sk", "tx#00000000-0000-0000-0000-000000000001"),
            s("account_id", A_TEXT),
            s("account_version", B_TEXT),
            n("amount", "-39.99"),
            n("created_at_in_nanos", "1700000000000000001"),
            s("currency", "BRL"),
            s("id", C_TEXT),
            s("idempotency_key", "idemp_1"),
        ]
    );
    assert_eq!(TransactionEntity::from_item(&item).unwrap().to_transaction(), entry);
}

#[test]
fn an_account_update_is_written_under_its_version_condition() {
    let update = AccountUpdate {
        account: Account::from_storage(
            A,
            "BRL".to_string(),
            Money::from_minor_units(7000),
            1_000_000,
            5_000_000,
            C,
        ),
        expected_version: B,
    };
    assert_eq!(
        account_update(&update),
        TransactWrite::Update {
            key: vec![
                s("pk", "acc#a1a2a3a4-b1b2-c1c2-d1d2-d3d4d5d6d7d8"),
                s("sk", "acc#a1a2a3a4-b1b2-c1c2-d1d2-d3d4d5d6d7d8"),
            ],
            update_expression:
                "SET balance = :amount, last_updated_at_in_millis = :updatedAt, version = :newVersion"
                    .to_string(),
            condition_expression: "version = :expectedVersion".to_string(),
            values: vec![
                n(":amount", "70.00"),
                n(":updatedAt", "5"),
                s(":newVersion", C_TEXT),
                s(":expectedVersion", B_TEXT),
            ],
        }
    );
}

#[test]
fn a_batch_becomes_puts_then_conditional_updates() {
    let from = Account::from_storage(A, "BRL".to_string(), Money::from_minor_units(10000), 1, 2, 10);
    let to = Account::from_storage(B, "BRL".to_string(), Money::zero(), 1, 2, 20);
    let entries = vec![
        Transaction::stamped(&from, "t", &Money::from_minor_units(-3000), 100, 50),
        Transaction::stamped(&to, "t", &Money::from_minor_units(3000), 101, 51),
    ];
    let updates = vec![
        AccountUpdate { account: from.with_balance(Money::from_minor_units(7000), 50, 11), expected_version: 10 },
        AccountUpdate { account: to.with_balance(Money::from_minor_units(3000), 51, 21), expected_version: 20 },
    ];
    let writes = transact_items(&entries, &updates);
    assert_eq!(writes.len(), 4);
    assert_eq!(writes[0], TransactWrite::Put { item: transaction_item(&entries[0]) });
    assert_eq!(writes[1], TransactWrite::Put { item: transaction_item(&entries[1]) });
    assert_eq!(writes[2], account_update(&updates[0]));
    assert_eq!(writes[3], account_update(&updates[1]));
    for (write, update) in writes[2..].iter().zip(updates.iter()) {
        match write {
            TransactWrite::Update { condition_expression, values, .. } => {
                assert_eq!(condition_expression, "version = :expectedVersion");
                assert_eq!(
                    find(values, ":expectedVersion"),
                    Some(&AttributeValue::S(
                        Uuid::from_u128(update.expected_version).hyphenated().to_string()
                    ))
                );
            }
            TransactWrite::Put { .. } => panic!("an update went without its condition"),
        }
    }
    assert!(transact_items(&Vec::new(), &Vec::new()).is_empty());
}

#[test]
fn a_query_result_is_an_account_absence_or_a_failure() {
    assert_eq!(found_account(&Vec::new()), Ok(None));
    let found = found_account(&vec![stored_account(), Vec::new()]).unwrap().unwrap();
    assert_eq!(found.uuid, A);
    assert_eq!(found.balance.minor_units(), 6001);
    assert_eq!(found.version, B);
    assert_eq!(found_account(&vec![Vec::new(), stored_account()]), Err(LedgerError::StorageUnavailable));
    let mut late = stored_account();
    late[5] = n("created_at_in_millis", "9223372036854775807");
    assert_eq!(found_account(&vec![late]), Err(LedgerError::StorageUnavailable));
}

use mini_ledger::dynamo_storage::entity::utils::{find, AttributeValue};
use mini_ledger::dynamo_storage::storage::transaction_item;
use mini_ledger::model::transaction::Transaction;
use mini_ledger::money::Money;
use mini_ledger::number::parse_integer;

fn integer_to_text(n: i64) -> String {
    let entry = Transaction {
        id: 1,
        idempotency_key: String::new(),
        account_version: 2,
        account_id: 3,
        amount: Money::zero(),
        created_at: n,
        currency: String::new(),
    };
    match find(&transaction_item(&entry), "created_at_in_nanos") {
        Some(AttributeValue::N(text)) => text.clone(),
        other => panic!("no number attribute: {:?}", other),
    }
}

#[test]
fn whole_numbers_are_read_from_decimal_text() {
    assert_eq!(parse_integer("0"), Some(0));
    assert_eq!(parse_integer("-0"), Some(0));
    assert_eq!(parse_integer("+5"), Some(5));
    assert_eq!(parse_integer("123"), Some(123));
    assert_eq!(parse_integer("-123"), Some(-123));
    assert_eq!(parse_integer("007"), Some(7));
    assert_eq!(parse_integer("9223372036854775807"), Some(i64::MAX));
    assert_eq!(parse_integer("-9223372036854775808"), Some(i64::MIN));
}

#[test]
fn what_is_no_whole_number_is_refused() {
    assert_eq!(parse_integer(""), None);
    assert_eq!(parse_integer("+"), None);
    assert_eq!(parse_integer("-"), None);
    assert_eq!(parse_integer("12a"), None);
    assert_eq!(parse_integer(" 1"), None);
    assert_eq!(parse_integer("1 "), None);
    assert_eq!(parse_integer("--1"), None);
    assert_eq!(parse_integer("1.0"), None);
    assert_eq!(parse_integer("\u{661}\u{662}"), None);
    assert_eq!(parse_integer("1\u{e9}"), None);
    assert_eq!(parse_integer("9223372036854775808"), None);
    assert_eq!(parse_integer("-9223372036854775809"), None);
    assert_eq!(parse_integer("99999999999999999999999"), None);
}

#[test]
fn reading_agrees_with_the_standard_parser() {
    let samples = [
        "0", "-0", "+0", "1", "-1", "+1", "10", "0010", "", "+", "-", "a", "1a", "a1", "1-", "+-1",
        "9223372036854775807", "9223372036854775808", "-9223372036854775808",
        "-9223372036854775809", "18446744073709551616", " 5", "5 ", "5_000",
    ];
    for sample in samples {
        assert_eq!(parse_integer(sample), sample.parse::<i64>().ok(), "{:?}", sample);
    }
}

#[test]
fn whole_numbers_are_written_as_decimal_text() {
    assert_eq!(integer_to_text(0), "0");
    assert_eq!(integer_to_text(7), "7");
    assert_eq!(integer_to_text(-1), "-1");
    assert_eq!(integer_to_text(1234567), "1234567");
    assert_eq!(integer_to_text(i64::MAX), "9223372036854775807");
    assert_eq!(integer_to_text(i64::MIN), "-9223372036854775808");
}

#[test]
fn a_number_written_is_read_back() {
    for n in [0i64, 1, -1, 9, 10, -10, 1_000_000, i64::MAX, i64::MIN] {
        assert_eq!(parse_integer(&integer_to_text(n)), Some(n));
    }
}

//! Attributes by name, read with defaults.

use vstd::prelude::*;

use crate::decimal::{decimal_parts, money_of_parts};
use crate::money::Money;
use crate::number::{integer_of_text, parse_integer};
use crate::token::{parse_uuid, uuid_of_text};

verus! {

/// What the ledger reads of a stored attribute: a string, a number in decimal
/// text, or anything else.
#[derive(Debug, PartialEq, Eq)]
pub enum AttributeValue {
    S(String),
    N(String),
    Other,
}

/// An attribute value as plain mathematical values.
pub enum AttributeValueView {
    S(Seq<char>),
    N(Seq<char>),
    Other,
}

impl View for AttributeValue {
    type V = AttributeValueView;

    open spec fn view(&self) -> AttributeValueView {
        match self {
            AttributeValue::S(s) => AttributeValueView::S(s@),
            AttributeValue::N(n) => AttributeValueView::N(n@),
            AttributeValue::Other => AttributeValueView::Other,
        }
    }
}

impl Clone for AttributeValue {
    fn clone(&self) -> (r: Self)
        ensures
            r == *self,
    {
        match self {
            AttributeValue::S(s) => AttributeValue::S(s.clone()),
            AttributeValue::N(n) => AttributeValue::N(n.clone()),
            AttributeValue::Other => AttributeValue::Other,
        }
    }
}

/// One named attribute of an item.
#[derive(Debug, PartialEq, Eq)]
pub struct Attribute {
    pub name: String,
    pub value: AttributeValue,
}

/// A named attribute as plain mathematical values.
pub struct AttributeView {
    pub name: Seq<char>,
    pub value: AttributeValueView,
}

impl View for Attribute {
    type V = AttributeView;

    open spec fn view(&self) -> AttributeView {
        AttributeView { name: self.name@, value: self.value@ }
    }
}

impl Clone for Attribute {
    fn clone(&self) -> (r: Self)
        ensures
            r == *self,
    {
        Attribute { name: self.name.clone(), value: self.value.clone() }
    }
}

/// The views of the attributes of an item, in order.
pub open spec fn item_view(item: Seq<Attribute>) -> Seq<AttributeView> {
    item.map_values(|a: Attribute| a@)
}

/// The value of the first attribute of the item that has this name, if any.
pub open spec fn lookup(item: Seq<AttributeView>, key: Seq<char>) -> Option<AttributeValueView>
    decreases item.len(),
{
    if item.len() == 0 {
        None
    } else if item[0].name == key {
        Some(item[0].value)
    } else {
        lookup(item.drop_first(), key)
    }
}

/// The string stored under a name: the text of a string attribute, and the
/// empty text where the attribute is missing or is no string.
pub open spec fn string_at(item: Seq<AttributeView>, key: Seq<char>) -> Seq<char> {
    match lookup(item, key) {
        Some(AttributeValueView::S(s)) => s,
        _ => Seq::empty(),
    }
}

/// The decimal text of the number stored under a name, where there is one.
pub open spec fn number_at(item: Seq<AttributeView>, key: Seq<char>) -> Option<Seq<char>> {
    match lookup(item, key) {
        Some(AttributeValueView::N(n)) => Some(n),
        _ => None,
    }
}

/// Finds the first attribute of the item that has this name.
pub fn find<'a>(item: &'a Vec<Attribute>, key: &str) -> (r: Option<&'a AttributeValue>)
    ensures
        match r {
            Some(value) => lookup(item_view(item@), key@) == Some(value@),
            None => lookup(item_view(item@), key@) is None,
        },
{
    let wanted: String = key.to_owned();
    let ghost views = item_view(item@);
    let mut i: usize = 0;
    assert(views.skip(0) =~= views);
    while i < item.len()
        invariant
            i <= item.len(),
            views == item_view(item@),
            wanted@ == key@,
            lookup(views, key@) == lookup(views.skip(i as int), key@),
        decreases item.len() - i,
    {
        let ghost rest = views.skip(i as int);
        assert(rest[0] == item@[i as int]@);
        assert(rest.drop_first() =~= views.skip(i as int + 1));
        if item[i].name == wanted {
            return Some(&item[i].value);
        }
        i = i + 1;
    }
    None
}

/// Reads a string attribute; the empty string where it is missing or is no
/// string.
pub fn get_string(value: &Vec<Attribute>, key: &str) -> (s: String)
    ensures
        s@ == string_at(item_view(value@), key@),
{
    match find(value, key) {
        Some(AttributeValue::S(s)) => s.clone(),
        _ => String::new(),
    }
}

/// Reads a token from a string attribute; `None` where the attribute is
/// missing, is no string, or holds no token.
pub fn get_uuid(value: &Vec<Attribute>, key: &str) -> (r: Option<u128>)
    ensures
        r == uuid_of_text(string_at(item_view(value@), key@)),
{
    let text = get_string(value, key);
    parse_uuid(text.as_str())
}

/// The amount a number attribute stands for, given what the decimal parser
/// read from it: 0.00 where there is no number or it stands for no
/// representable amount.
pub open spec fn amount_or_zero(parsed: Option<Option<(i128, i64)>>) -> Money {
    match parsed {
        Some(parts) => match money_of_parts(parts) {
            Some(money) => money,
            None => Money { minor_units: 0 },
        },
        None => Money { minor_units: 0 },
    }
}

/// Reads an amount from a number attribute; 0.00 where the attribute is
/// missing, is no number, or holds no representable amount.
pub fn get_bigdecimal(value: &Vec<Attribute>, key: &str) -> (m: Money)
    ensures
        m == amount_or_zero(
            match number_at(item_view(value@), key@) {
                Some(text) => Some(decimal_parts(text)),
                None => None,
            },
        ),
{
    match find(value, key) {
        Some(AttributeValue::N(n)) => match Money::parse(n.as_str()) {
            Some(money) => money,
            None => Money::zero(),
        },
        _ => Money::zero(),
    }
}

/// The whole number stored under a name: zero where the attribute is missing,
/// is no number, or holds no whole number of 64 bits.
pub open spec fn integer_at(item: Seq<AttributeView>, key: Seq<char>) -> i64 {
    match number_at(item, key) {
        Some(text) => match integer_of_text(text) {
            Some(n) => n,
            None => 0,
        },
        None => 0,
    }
}

/// Reads a whole number from a number attribute, with zero as the default.
pub fn get_i64(value: &Vec<Attribute>, key: &str) -> (n: i64)
    ensures
        n == integer_at(item_view(value@), key@),
{
    match find(value, key) {
        Some(AttributeValue::N(text)) => match parse_integer(text.as_str()) {
            Some(n) => n,
            None => 0,
        },
        _ => 0,
    }
}

} // verus!

//! The events the contracts report: a kind and a list of attributes, each a
//! key with a text or a number.
use vstd::prelude::*;

verus! {

/// The value of an attribute.
#[derive(Debug, PartialEq, Eq)]
pub enum AttrValue {
    Text(String),
    /// An amount of the native denomination.
    Amount(u128),
}

/// One attribute of an event.
#[derive(Debug, PartialEq, Eq)]
pub struct Attribute {
    pub key: String,
    pub value: AttrValue,
}

/// An event: its kind and its attributes, in order.
#[derive(Debug, PartialEq, Eq)]
pub struct Event {
    pub kind: String,
    pub attributes: Vec<Attribute>,
}

/// `a` is the attribute `key` with the text `v`.
pub open spec fn is_text(a: Attribute, key: Seq<char>, v: Seq<char>) -> bool {
    a.key@ == key && (a.value matches AttrValue::Text(t) && t@ == v)
}

/// `a` is the attribute `key` with the amount `v`.
pub open spec fn is_amount(a: Attribute, key: Seq<char>, v: u128) -> bool {
    a.key@ == key && a.value == AttrValue::Amount(v)
}

/// `e` is of kind `kind` and has the text attributes `attrs`, in order.
pub open spec fn texts_event(e: Event, kind: Seq<char>, attrs: Seq<(Seq<char>, Seq<char>)>) -> bool {
    &&& e.kind@ == kind
    &&& e.attributes@.len() == attrs.len()
    &&& forall|i: int| 0 <= i < attrs.len() ==> is_text(#[trigger] e.attributes@[i], attrs[i].0, attrs[i].1)
}

/// `e` is of kind `kind`, has the text attributes `attrs`, in order, and then
/// the amount `amount` under `key`.
pub open spec fn priced_event(e: Event, kind: Seq<char>, attrs: Seq<(Seq<char>, Seq<char>)>, key: Seq<char>,
    amount: u128) -> bool {
    &&& e.kind@ == kind
    &&& e.attributes@.len() == attrs.len() + 1
    &&& forall|i: int| 0 <= i < attrs.len() ==> is_text(#[trigger] e.attributes@[i], attrs[i].0, attrs[i].1)
    &&& is_amount(e.attributes@[attrs.len() as int], key, amount)
}

/// A text attribute.
pub fn text(key: &str, v: &String) -> (a: Attribute)
    ensures
        is_text(a, key@, v@),
{
    Attribute { key: key.to_owned(), value: AttrValue::Text(v.clone()) }
}

/// An event of kind `kind` with the given attributes.
pub fn event(kind: &str, attributes: Vec<Attribute>) -> (e: Event)
    ensures
        e.kind@ == kind@,
        e.attributes@ == attributes@,
{
    Event { kind: kind.to_owned(), attributes }
}

/// An event with one text attribute.
pub fn event1(kind: &str, k1: &str, v1: &String) -> (e: Event)
    ensures
        texts_event(e, kind@, seq![(k1@, v1@)]),
{
    let mut a: Vec<Attribute> = Vec::new();
    a.push(text(k1, v1));
    event(kind, a)
}

/// An event with two text attributes.
pub fn event2(kind: &str, k1: &str, v1: &String, k2: &str, v2: &String) -> (e: Event)
    ensures
        texts_event(e, kind@, seq![(k1@, v1@), (k2@, v2@)]),
{
    let mut a: Vec<Attribute> = Vec::new();
    a.push(text(k1, v1));
    a.push(text(k2, v2));
    event(kind, a)
}

/// An event with three text attributes.
pub fn event3(kind: &str, k1: &str, v1: &String, k2: &str, v2: &String, k3: &str, v3: &String) -> (e: Event)
    ensures
        texts_event(e, kind@, seq![(k1@, v1@), (k2@, v2@), (k3@, v3@)]),
{
    let mut a: Vec<Attribute> = Vec::new();
    a.push(text(k1, v1));
    a.push(text(k2, v2));
    a.push(text(k3, v3));
    event(kind, a)
}

/// An event with text attributes `texts` and then an amount.
pub fn priced(kind: &str, texts: Vec<Attribute>, key: &str, amount: u128) -> (e: Event)
    ensures
        e.kind@ == kind@,
        e.attributes@ == texts@.push(Attribute { key: e.attributes@.last().key, value: AttrValue::Amount(amount) }),
        e.attributes@.last().key@ == key@,
{
    let mut a = texts;
    a.push(Attribute { key: key.to_owned(), value: AttrValue::Amount(amount) });
    event(kind, a)
}

/// An event with two text attributes and an amount.
pub fn priced2(kind: &str, k1: &str, v1: &String, k2: &str, v2: &String, key: &str, amount: u128) -> (e: Event)
    ensures
        priced_event(e, kind@, seq![(k1@, v1@), (k2@, v2@)], key@, amount),
{
    let mut a: Vec<Attribute> = Vec::new();
    a.push(text(k1, v1));
    a.push(text(k2, v2));
    priced(kind, a, key, amount)
}

/// An event with three text attributes and an amount.
pub fn priced3(kind: &str, k1: &str, v1: &String, k2: &str, v2: &String, k3: &str, v3: &String, key: &str,
    amount: u128) -> (e: Event)
    ensures
        priced_event(e, kind@, seq![(k1@, v1@), (k2@, v2@), (k3@, v3@)], key@, amount),
{
    let mut a: Vec<Attribute> = Vec::new();
    a.push(text(k1, v1));
    a.push(text(k2, v2));
    a.push(text(k3, v3));
    priced(kind, a, key, amount)
}

} // verus!

//! Attributes of spans and measurements.

#[allow(unused_imports)]
use crate::text::optional_text;
use opentelemetry::KeyValue;
use vstd::prelude::*;

verus! {

/// An OpenTelemetry attribute.
#[verifier::external_type_specification]
#[verifier::external_body]
pub struct ExKeyValue(KeyValue);

/// The value of an attribute.
#[derive(Debug)]
pub enum AttributeValue {
    Text(String),
    Integer(i64),
}

/// A named value that describes a span or a measurement.
#[derive(Debug)]
pub struct Attribute {
    pub key: String,
    pub value: AttributeValue,
}

/// The value of an attribute, as plain data.
pub enum ValueView {
    Text(Seq<char>),
    Integer(i64),
}

impl View for AttributeValue {
    type V = ValueView;

    open spec fn view(&self) -> ValueView {
        match self {
            AttributeValue::Text(text) => ValueView::Text(text@),
            AttributeValue::Integer(number) => ValueView::Integer(*number),
        }
    }
}

impl View for Attribute {
    type V = (Seq<char>, ValueView);

    open spec fn view(&self) -> (Seq<char>, ValueView) {
        (self.key@, self.value@)
    }
}

/// The attributes of a list, as plain data.
pub open spec fn attribute_views(attributes: Seq<Attribute>) -> Seq<(Seq<char>, ValueView)> {
    attributes.map_values(|attribute: Attribute| attribute@)
}

/// An attribute with a text as its value, if there is one.
pub open spec fn optional_attribute(key: Seq<char>, value: Option<Seq<char>>) -> Seq<
    (Seq<char>, ValueView),
> {
    match value {
        Some(text) => seq![(key, ValueView::Text(text))],
        None => Seq::empty(),
    }
}

/// The OpenTelemetry attribute with this key and this text as its value.
pub uninterp spec fn text_key_value(key: Seq<char>, value: Seq<char>) -> KeyValue;

/// The OpenTelemetry attribute with this key and this number as its value.
pub uninterp spec fn integer_key_value(key: Seq<char>, value: i64) -> KeyValue;

/// The OpenTelemetry attribute that an attribute stands for.
pub open spec fn key_value_of(attribute: (Seq<char>, ValueView)) -> KeyValue {
    match attribute.1 {
        ValueView::Text(text) => text_key_value(attribute.0, text),
        ValueView::Integer(number) => integer_key_value(attribute.0, number),
    }
}

/// The OpenTelemetry attributes that a list of attributes stands for.
pub open spec fn key_values_of(attributes: Seq<(Seq<char>, ValueView)>) -> Seq<KeyValue> {
    attributes.map_values(|attribute: (Seq<char>, ValueView)| key_value_of(attribute))
}

/// `KeyValue::new` with a text as the value: the attribute depends on the key
/// and the text alone.
#[verifier::external_body]
fn new_text_key_value(key: String, value: String) -> (r: KeyValue)
    ensures
        r == text_key_value(key@, value@),
{
    KeyValue::new(key, value)
}

/// `KeyValue::new` with an integer as the value: the attribute depends on the
/// key and the integer alone.
#[verifier::external_body]
fn new_integer_key_value(key: String, value: i64) -> (r: KeyValue)
    ensures
        r == integer_key_value(key@, value),
{
    KeyValue::new(key, value)
}

/// Returns an attribute with a text as its value.
pub fn text_attribute(key: &str, value: &str) -> (r: Attribute)
    ensures
        r@ == (key@, ValueView::Text(value@)),
        r.key@ == key@,
        r.value matches AttributeValue::Text(text) && text@ == value@,
{
    Attribute { key: key.to_owned(), value: AttributeValue::Text(value.to_owned()) }
}

/// Returns an attribute with a number as its value.
pub fn integer_attribute(key: &str, value: i64) -> (r: Attribute)
    ensures
        r@ == (key@, ValueView::Integer(value)),
        r.key@ == key@,
        r.value == AttributeValue::Integer(value),
{
    Attribute { key: key.to_owned(), value: AttributeValue::Integer(value) }
}

/// Adds an attribute with a text as its value.
pub fn push_text(attributes: &mut Vec<Attribute>, key: &str, value: &str)
    ensures
        attribute_views(final(attributes)@) == attribute_views(old(attributes)@) + seq![
            (key@, ValueView::Text(value@)),
        ],
{
    attributes.push(text_attribute(key, value));
    assert(attribute_views(attributes@) =~= attribute_views(old(attributes)@) + seq![
        (key@, ValueView::Text(value@)),
    ]);
}

/// Adds an attribute with a number as its value.
pub fn push_integer(attributes: &mut Vec<Attribute>, key: &str, value: i64)
    ensures
        attribute_views(final(attributes)@) == attribute_views(old(attributes)@) + seq![
            (key@, ValueView::Integer(value)),
        ],
{
    attributes.push(integer_attribute(key, value));
    assert(attribute_views(attributes@) =~= attribute_views(old(attributes)@) + seq![
        (key@, ValueView::Integer(value)),
    ]);
}

/// Adds an attribute with a text as its value, if there is one.
pub fn push_optional(attributes: &mut Vec<Attribute>, key: &str, value: &Option<String>)
    ensures
        attribute_views(final(attributes)@) == attribute_views(old(attributes)@)
            + optional_attribute(key@, optional_text(*value)),
{
    match value {
        Some(text) => push_text(attributes, key, text.as_str()),
        None => {},
    }
    assert(attribute_views(attributes@) =~= attribute_views(old(attributes)@) + optional_attribute(
        key@,
        optional_text(*value),
    ));
}

/// Returns the OpenTelemetry attribute that an attribute stands for.
pub fn to_key_value(attribute: Attribute) -> (r: KeyValue)
    ensures
        r == key_value_of(attribute@),
        match attribute.value {
            AttributeValue::Text(text) => r == text_key_value(attribute.key@, text@),
            AttributeValue::Integer(number) => r == integer_key_value(attribute.key@, number),
        },
{
    match attribute.value {
        AttributeValue::Text(text) => new_text_key_value(attribute.key, text),
        AttributeValue::Integer(number) => new_integer_key_value(attribute.key, number),
    }
}

/// Returns the OpenTelemetry attributes that a list of attributes stands for,
/// in order.
pub fn to_key_values(attributes: Vec<Attribute>) -> (r: Vec<KeyValue>)
    ensures
        r@ == key_values_of(attribute_views(attributes@)),
        r@.len() == attributes@.len(),
        forall|i: int|
            0 <= i < r@.len() ==> (#[trigger] r@[i]) == (match attributes@[i].value {
                AttributeValue::Text(text) => text_key_value(attributes@[i].key@, text@),
                AttributeValue::Integer(number) => integer_key_value(
                    attributes@[i].key@,
                    number,
                ),
            }),
{
    let ghost all = attributes@;
    let mut r: Vec<KeyValue> = Vec::new();
    for attribute in it: attributes
        invariant
            it.seq() == all,
            r@ == key_values_of(attribute_views(all.take(it.index()))),
    {
        let ghost done = all.take(it.index());
        r.push(to_key_value(attribute));
        assert(all.take(it.index() + 1) == done.push(attribute));
        assert(attribute_views(done.push(attribute)) =~= attribute_views(done).push(attribute@));
        assert(r@ =~= key_values_of(attribute_views(done).push(attribute@)));
    }
    assert(all.take(all.len() as int) == all);
    r
}

/// Attributes become OpenTelemetry attributes one by one, in order, each with its
/// own key and value: a text as a text and a number as a number.
pub proof fn law_attributes_become_key_values(attributes: Seq<(Seq<char>, ValueView)>, i: int)
    requires
        0 <= i < attributes.len(),
    ensures
        key_values_of(attributes).len() == attributes.len(),
        attributes[i].1 matches ValueView::Text(text) ==> key_values_of(attributes)[i]
            == text_key_value(attributes[i].0, text),
        attributes[i].1 matches ValueView::Integer(number) ==> key_values_of(attributes)[i]
            == integer_key_value(attributes[i].0, number),
{
}

/// What is said of attributes as plain data is said of their own keys and
/// values.
pub proof fn law_attributes_are_viewed_as_they_are(attributes: Seq<Attribute>, i: int)
    requires
        0 <= i < attributes.len(),
    ensures
        attribute_views(attributes).len() == attributes.len(),
        attribute_views(attributes)[i].0 == attributes[i].key@,
        attributes[i].value matches AttributeValue::Text(text) ==> attribute_views(attributes)[i].1
            == ValueView::Text(text@),
        attributes[i].value matches AttributeValue::Integer(number) ==> attribute_views(
            attributes,
        )[i].1 == ValueView::Integer(number),
{
}

} // verus!

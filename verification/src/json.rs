//! JSON values. The values themselves are `serde_json`'s; what the library
//! reads of them is said here over a model of its own, [`Json`].

use vstd::prelude::*;
use crate::number::Number;

verus! {

#[verifier::external_type_specification]
#[verifier::external_body]
pub struct ExValue(serde_json::Value);

#[verifier::external_type_specification]
#[verifier::external_body]
#[verifier::reject_recursive_types(K)]
#[verifier::reject_recursive_types(V)]
pub struct ExMap<K, V>(serde_json::Map<K, V>);

/// A JSON number in one of the three forms in which it is held: an integer
/// that is not negative, a negative integer, or a floating-point number.
pub enum JsonNumber {
    Unsigned(u64),
    Negative(i64),
    Real(Number),
}

/// What a JSON value holds. The members of an object keep the order in which
/// they were written.
pub enum Json {
    Null,
    Bool(bool),
    Number(JsonNumber),
    Text(Seq<char>),
    Array(Seq<Json>),
    Object(Seq<(Seq<char>, Json)>),
}

/// What `value` holds.
pub uninterp spec fn value_json(value: serde_json::Value) -> Json;

/// The members of `map`, in its order.
pub uninterp spec fn map_entries(map: serde_json::Map<String, serde_json::Value>) -> Seq<
    (Seq<char>, Json),
>;

/// The value that `text` denotes as a JSON document, if it is one.
pub uninterp spec fn json_parse(text: Seq<char>) -> Option<Json>;

/// The JSON text for `value`, indented by two spaces for each level of
/// nesting.
pub uninterp spec fn json_pretty(value: Json) -> Seq<char>;

/// `number` as a floating-point number: the nearest one where it is an
/// integer.
pub uninterp spec fn number_float(number: JsonNumber) -> Option<Number>;

impl JsonNumber {
    /// The number as an unsigned integer, where it is held as one.
    pub open spec fn unsigned(self) -> Option<u64> {
        match self {
            JsonNumber::Unsigned(n) => Some(n),
            _ => None,
        }
    }
}

/// What the library reads of one value without looking into it further: its
/// kind, and what a scalar holds.
pub enum Shape {
    Null,
    Bool(bool),
    Number { unsigned: Option<u64>, float: Option<Number> },
    Text(String),
    Array,
    Object(serde_json::Map<String, serde_json::Value>),
}

impl Shape {
    /// Whether this is what is read of a value that holds `json`.
    pub open spec fn shows(self, json: Json) -> bool {
        match (self, json) {
            (Shape::Null, Json::Null) => true,
            (Shape::Bool(b), Json::Bool(held)) => b == held,
            (Shape::Number { unsigned, float }, Json::Number(n)) => unsigned == n.unsigned(),
            (Shape::Text(s), Json::Text(held)) => s@ == held,
            (Shape::Array, Json::Array(_)) => true,
            (Shape::Object(map), Json::Object(members)) => map_entries(map) == members,
            _ => false,
        }
    }
}

/// What a list of keys and values holds.
pub open spec fn entries_of(members: Seq<(String, serde_json::Value)>) -> Seq<(Seq<char>, Json)> {
    Seq::new(members.len(), |i: int| (members[i].0@, value_json(members[i].1)))
}

/// `serde_json::from_str` at the type `Value`: the value that `text` denotes,
/// or nothing where `text` is no JSON document.
#[verifier::external_body]
pub(crate) fn read_value(text: &str) -> (r: Option<serde_json::Value>)
    ensures
        match r {
            Some(value) => json_parse(text@) == Some(value_json(value)),
            None => json_parse(text@) is None,
        },
{
    serde_json::from_str::<serde_json::Value>(text).ok()
}

/// The variant of `value`, with what it holds: for a number what
/// `Number::as_u64` and `Number::as_f64` give, for a string and an object a
/// copy.
#[verifier::external_body]
pub(crate) fn shape_of(value: &serde_json::Value) -> (r: Shape)
    ensures
        r.shows(value_json(*value)),
        r matches Shape::Number { unsigned, float } ==> value_json(*value) matches Json::Number(n)
            && float == number_float(n),
{
    match value {
        serde_json::Value::Null => Shape::Null,
        serde_json::Value::Bool(b) => Shape::Bool(*b),
        serde_json::Value::Number(n) => Shape::Number {
            unsigned: n.as_u64(),
            float: n.as_f64().map(|x| Number { bits: x.to_bits() }),
        },
        serde_json::Value::String(s) => Shape::Text(s.clone()),
        serde_json::Value::Array(_) => Shape::Array,
        serde_json::Value::Object(map) => Shape::Object(map.clone()),
    }
}

/// `Map::iter`, each key and value copied: the members of `map` in its
/// order.
#[verifier::external_body]
pub(crate) fn members_of(map: &serde_json::Map<String, serde_json::Value>) -> (r: Vec<
    (String, serde_json::Value),
>)
    ensures
        entries_of(r@) == map_entries(*map),
{
    map.iter().map(|(key, value)| (key.clone(), value.clone())).collect()
}

/// The value of the first of `entries` whose key is `key`.
pub open spec fn member(entries: Seq<(Seq<char>, Json)>, key: Seq<char>) -> Option<Json>
    decreases entries.len(),
{
    if entries.len() == 0 {
        None
    } else if entries.first().0 == key {
        Some(entries.first().1)
    } else {
        member(entries.drop_first(), key)
    }
}

/// `entries` without those whose key is `key`, the others in their order.
pub open spec fn without_key(entries: Seq<(Seq<char>, Json)>, key: Seq<char>) -> Seq<
    (Seq<char>, Json),
>
    decreases entries.len(),
{
    if entries.len() == 0 {
        entries
    } else if entries.last().0 == key {
        without_key(entries.drop_last(), key)
    } else {
        without_key(entries.drop_last(), key).push(entries.last())
    }
}

/// `Map::shift_remove`: takes the member with the key `key` out of `map` and
/// hands out its value; the members that stay keep their order.
#[verifier::external_body]
pub(crate) fn take_member(
    map: &mut serde_json::Map<String, serde_json::Value>,
    key: &str,
) -> (r: Option<serde_json::Value>)
    ensures
        map_entries(*final(map)) == without_key(map_entries(*old(map)), key@),
        match r {
            Some(value) => member(map_entries(*old(map)), key@) == Some(value_json(value)),
            None => member(map_entries(*old(map)), key@) is None,
        },
{
    map.shift_remove(key)
}

/// `serde_json::to_string_pretty`: the JSON text for `value`, indented by two
/// spaces for each level of nesting.
#[verifier::external_body]
pub(crate) fn pretty_text(value: &serde_json::Value) -> (r: String)
    ensures
        r@ == json_pretty(value_json(*value)),
{
    serde_json::to_string_pretty(value).unwrap_or_default()
}

} // verus!

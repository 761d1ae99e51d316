//! JSON values, built up from their parts.

use serde_json::Value;
use vstd::prelude::*;

verus! {

/// A JSON value of `serde_json`.
#[verifier::external_type_specification]
#[verifier::external_body]
pub struct ExJsonValue(Value);

/// What a JSON value holds.
pub enum Json {
    Bool(bool),
    Count(u64),
    Text(Seq<char>),
    List(Seq<Json>),
    Object(Map<Seq<char>, Json>),
}

/// What a `serde_json::Value` of the sorts that are built here holds.
pub uninterp spec fn json_contents(value: Value) -> Json;

pub open spec fn json_items(values: Seq<Value>) -> Seq<Json> {
    values.map_values(|value: Value| json_contents(value))
}

/// `Value::Bool`.
#[verifier::external_body]
pub(crate) fn json_bool(value: bool) -> (r: Value)
    ensures
        json_contents(r) == Json::Bool(value),
{
    Value::Bool(value)
}

/// `Value::from` of a whole number.
#[verifier::external_body]
pub(crate) fn json_count(value: u64) -> (r: Value)
    ensures
        json_contents(r) == Json::Count(value),
{
    Value::from(value)
}

/// `Value::String`.
#[verifier::external_body]
pub(crate) fn json_text(value: &str) -> (r: Value)
    ensures
        json_contents(r) == Json::Text(value@),
{
    Value::String(value.to_owned())
}

/// `Value::Array`.
#[verifier::external_body]
pub(crate) fn json_list(values: Vec<Value>) -> (r: Value)
    ensures
        json_contents(r) == Json::List(json_items(values@)),
{
    Value::Array(values)
}

/// `Value::Object` of an empty map.
#[verifier::external_body]
pub(crate) fn json_object() -> (r: Value)
    ensures
        json_contents(r) == Json::Object(Map::<Seq<char>, Json>::empty()),
{
    Value::Object(serde_json::Map::new())
}

/// `IndexMut` of a `Value` that is an object, with an assignment: the member is
/// set, and the others stay.
#[verifier::external_body]
pub(crate) fn json_set(object: &mut Value, key: &str, value: Value)
    requires
        json_contents(*old(object)) is Object,
    ensures
        json_contents(*final(object)) == Json::Object(
            json_contents(*old(object))->Object_0.insert(key@, json_contents(value)),
        ),
{
    object[key] = value;
}

/// The text of a JSON value.
pub uninterp spec fn json_rendered(value: Json) -> Seq<char>;

/// The `Display` of a `serde_json::Value`, which depends on nothing but what the
/// value holds.
#[verifier::external_body]
pub(crate) fn json_string_of(value: &Value) -> (r: String)
    ensures
        r@ == json_rendered(json_contents(*value)),
{
    value.to_string()
}

/// The largest whole number that a count is written as.
pub open spec fn capped(count: nat) -> u64 {
    if count <= u64::MAX {
        count as u64
    } else {
        u64::MAX
    }
}

/// A count as a JSON number.
pub fn json_total(count: u128) -> (r: Value)
    ensures
        json_contents(r) == Json::Count(capped(count as nat)),
{
    if count <= u64::MAX as u128 {
        json_count(count as u64)
    } else {
        json_count(u64::MAX)
    }
}

/// A list of texts as a JSON array.
pub open spec fn json_texts(texts: Seq<Seq<char>>) -> Json {
    Json::List(texts.map_values(|text: Seq<char>| Json::Text(text)))
}

/// A list of texts.
pub fn json_text_list(list: &Vec<String>) -> (r: Value)
    ensures
        json_contents(r) == json_texts(crate::text::texts(list@)),
{
    let mut values: Vec<Value> = Vec::new();
    let mut i: usize = 0;
    while i < list.len()
        invariant
            i <= list@.len(),
            values@.len() == i,
            forall|k: int|
                0 <= k < i ==> json_contents(#[trigger] values@[k]) == Json::Text(list@[k]@),
        decreases list@.len() - i,
    {
        values.push(json_text(list[i].as_str()));
        i += 1;
    }
    proof {
        assert(json_items(values@) =~= crate::text::texts(list@).map_values(
            |text: Seq<char>| Json::Text(text),
        ));
    }
    json_list(values)
}

} // verus!

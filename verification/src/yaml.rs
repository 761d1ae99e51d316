//! YAML values: what they hold, and how the rules read them.

use crate::text::{same, text_option};
use serde_yaml::{Mapping, Value};
use vstd::prelude::*;
use vstd::string::*;
use vstd::utf8::encode_utf8;

verus! {

/// A YAML value of `serde_yaml`.
#[verifier::external_type_specification]
#[verifier::external_body]
pub struct ExValue(Value);

/// A YAML mapping of `serde_yaml`.
#[verifier::external_type_specification]
#[verifier::external_body]
pub struct ExMapping(Mapping);

/// A number as a YAML document writes it: its text, and its value where it is a
/// whole number of the type.
#[derive(Debug, Clone)]
pub struct YamlNumber {
    pub text: String,
    pub signed: Option<i64>,
    pub unsigned: Option<u64>,
}

/// What a YAML value holds.
pub enum Yaml {
    Null,
    Bool(bool),
    Number(Seq<char>, Option<i64>, Option<u64>),
    Text(Seq<char>),
    Sequence(Seq<Yaml>),
    Mapping(Seq<(Yaml, Yaml)>),
    Tagged(Seq<char>, Box<Yaml>),
}

/// The outermost layer of a YAML value.
#[derive(Debug, Clone)]
pub enum YamlShape {
    Null,
    Bool(bool),
    Number(YamlNumber),
    Text(String),
    Sequence(Vec<Value>),
    Mapping(Vec<(Value, Value)>),
    Tagged(String, Value),
}

/// What a `serde_yaml::Value` holds, all the way down.
pub uninterp spec fn yaml_contents(value: Value) -> Yaml;

/// The entries of a `serde_yaml::Mapping`, in their order.
pub uninterp spec fn mapping_contents(mapping: Mapping) -> Seq<(Yaml, Yaml)>;

pub open spec fn items_contents(items: Seq<Value>) -> Seq<Yaml> {
    items.map_values(|item: Value| yaml_contents(item))
}

pub open spec fn entries_contents(entries: Seq<(Value, Value)>) -> Seq<(Yaml, Yaml)> {
    entries.map_values(|entry: (Value, Value)| (yaml_contents(entry.0), yaml_contents(entry.1)))
}

pub open spec fn shape_contents(shape: YamlShape) -> Yaml {
    match shape {
        YamlShape::Null => Yaml::Null,
        YamlShape::Bool(value) => Yaml::Bool(value),
        YamlShape::Number(number) => Yaml::Number(number.text@, number.signed, number.unsigned),
        YamlShape::Text(text) => Yaml::Text(text@),
        YamlShape::Sequence(items) => Yaml::Sequence(items_contents(items@)),
        YamlShape::Mapping(entries) => Yaml::Mapping(entries_contents(entries@)),
        YamlShape::Tagged(tag, value) => Yaml::Tagged(tag@, Box::new(yaml_contents(value))),
    }
}

/// Cloning a YAML value gives the same value.
pub assume_specification[ <Value as Clone>::clone ](value: &Value) -> (r: Value)
    ensures
        r == *value,
;

/// The variant of a `serde_yaml::Value` with its fields. A number is read by its
/// `Display`, `Number::as_i64` and `Number::as_u64`; a mapping gives its entries
/// in their order.
#[verifier::external_body]
pub(crate) fn yaml_shape(value: &Value) -> (r: YamlShape)
    ensures
        shape_contents(r) == yaml_contents(*value),
{
    match value.clone() {
        Value::Null => YamlShape::Null,
        Value::Bool(value) => YamlShape::Bool(value),
        Value::Number(n) => YamlShape::Number(
            YamlNumber { text: n.to_string(), signed: n.as_i64(), unsigned: n.as_u64() },
        ),
        Value::String(text) => YamlShape::Text(text),
        Value::Sequence(items) => YamlShape::Sequence(items),
        Value::Mapping(entries) => YamlShape::Mapping(entries.into_iter().collect()),
        Value::Tagged(tagged) => YamlShape::Tagged(tagged.tag.to_string(), tagged.value),
    }
}

/// What a YAML document says, or why it is none.
pub uninterp spec fn yaml_document(text: Seq<char>) -> Result<Yaml, Seq<char>>;

/// `serde_yaml::from_str`: the value of a YAML document, or the message of its
/// error. Which documents are accepted, and what they say, depends on nothing
/// but the text; no more is stated.
#[verifier::external_body]
pub(crate) fn parse_document(text: &str) -> (r: Result<Value, String>)
    ensures
        match r {
            Ok(value) => yaml_document(text@) == Ok::<Yaml, Seq<char>>(yaml_contents(value)),
            Err(error) => yaml_document(text@) == Err::<Yaml, Seq<char>>(error@),
        },
{
    serde_yaml::from_str::<Value>(text).map_err(|error| error.to_string())
}

/// How a YAML value is written for debugging.
pub uninterp spec fn yaml_debug(value: Yaml) -> Seq<char>;

/// The `Debug` of `serde_yaml::Value`; it depends on nothing but what the value
/// holds.
#[verifier::external_body]
pub(crate) fn debug_text(value: &Value) -> (r: String)
    ensures
        r@ == yaml_debug(yaml_contents(*value)),
{
    format!("{value:?}")
}

/// The YAML document of a value, where it has one.
pub uninterp spec fn yaml_emitted(value: Yaml) -> Option<Seq<char>>;

/// `serde_yaml::to_string`; it depends on nothing but what the value holds.
#[verifier::external_body]
pub(crate) fn emitted_text(value: &Value) -> (r: Option<String>)
    ensures
        text_option(r) == yaml_emitted(yaml_contents(*value)),
{
    serde_yaml::to_string(value).ok()
}

/// `entries` with the value of `key` set: in place where the key is there, else
/// behind the other entries.
pub open spec fn entry_set(entries: Seq<(Yaml, Yaml)>, key: Yaml, value: Yaml) -> Seq<(Yaml, Yaml)>
    decreases entries.len(),
{
    if entries.len() == 0 {
        seq![(key, value)]
    } else if entries[0].0 == key {
        seq![(key, value)] + entries.skip(1)
    } else {
        seq![entries[0]] + entry_set(entries.skip(1), key, value)
    }
}

/// `Mapping::new`: a mapping without entries.
#[verifier::external_body]
pub(crate) fn empty_mapping() -> (r: Mapping)
    ensures
        mapping_contents(r) == Seq::<(Yaml, Yaml)>::empty(),
{
    Mapping::new()
}

/// `Mapping::insert` under a text key: the value of that key is replaced where
/// it stands, or the entry is added behind the others.
#[verifier::external_body]
pub(crate) fn mapping_insert(mapping: &mut Mapping, key: &str, value: Value)
    ensures
        mapping_contents(*final(mapping)) == entry_set(
            mapping_contents(*old(mapping)),
            Yaml::Text(key@),
            yaml_contents(value),
        ),
{
    mapping.insert(Value::String(key.to_owned()), value);
}

/// `IntoIterator for Mapping`: the entries in their order.
#[verifier::external_body]
pub(crate) fn mapping_entries(mapping: Mapping) -> (r: Vec<(Value, Value)>)
    ensures
        entries_contents(r@) == mapping_contents(mapping),
{
    mapping.into_iter().collect()
}

/// Values that JSON holds as they are: null, truth values, whole numbers, texts,
/// and lists and mappings with text keys of such values, down to a depth.
pub open spec fn is_json(value: Yaml, depth: nat) -> bool
    decreases depth,
{
    match value {
        Yaml::Null => true,
        Yaml::Bool(_) => true,
        Yaml::Number(_, signed, unsigned) => signed is Some || unsigned is Some,
        Yaml::Text(_) => true,
        Yaml::Sequence(items) => depth > 0 && forall|i: int|
            0 <= i < items.len() ==> is_json(#[trigger] items[i], (depth - 1) as nat),
        Yaml::Mapping(entries) => depth > 0 && forall|i: int|
            0 <= i < entries.len() ==> (#[trigger] entries[i]).0 is Text && is_json(
                entries[i].1,
                (depth - 1) as nat,
            ),
        Yaml::Tagged(_, _) => false,
    }
}

/// The nesting that JSON readers go along with.
pub open spec fn json_depth() -> nat {
    100
}

/// The mapping that the bytes of a JSON document hold, if they hold one.
pub uninterp spec fn json_mapping(bytes: Seq<u8>) -> Option<Seq<(Yaml, Yaml)>>;

/// `serde_json::from_slice` into a mapping; what is accepted, and what it says,
/// depends on nothing but the bytes.
#[verifier::external_body]
pub(crate) fn mapping_from_json(bytes: &[u8]) -> (r: Option<Mapping>)
    ensures
        match r {
            Some(mapping) => json_mapping(bytes@) == Some(mapping_contents(mapping)),
            None => json_mapping(bytes@) is None,
        },
{
    serde_json::from_slice::<Mapping>(bytes).ok()
}

/// The JSON document of a mapping, or why it has none.
pub uninterp spec fn json_emitted(entries: Seq<(Yaml, Yaml)>) -> Result<Seq<char>, Seq<char>>;

/// `serde_json::to_string` of a mapping; it depends on nothing but the entries.
/// What is written starts with a brace. A mapping of values that JSON holds is
/// written, and read back from what was written.
#[verifier::external_body]
pub(crate) fn mapping_to_json(mapping: &Mapping) -> (r: Result<String, String>)
    ensures
        match r {
            Ok(text) => json_emitted(mapping_contents(*mapping)) == Ok::<Seq<char>, Seq<char>>(
                text@,
            ),
            Err(error) => json_emitted(mapping_contents(*mapping)) == Err::<Seq<char>, Seq<char>>(
                error@,
            ),
        },
        r is Ok ==> r->Ok_0@.len() > 0 && r->Ok_0@[0] == '{',
        is_json(Yaml::Mapping(mapping_contents(*mapping)), json_depth()) ==> {
            &&& r is Ok
            &&& json_mapping(encode_utf8(r->Ok_0@)) == Some(mapping_contents(*mapping))
        },
{
    serde_json::to_string(mapping).map_err(|error| error.to_string())
}

/// The mapping that the bytes of a YAML document hold, if they hold one.
pub uninterp spec fn yaml_mapping(bytes: Seq<u8>) -> Option<Seq<(Yaml, Yaml)>>;

/// `serde_yaml::from_slice` into a mapping; what is accepted, and what it says,
/// depends on nothing but the bytes.
#[verifier::external_body]
pub(crate) fn mapping_from_yaml(bytes: &[u8]) -> (r: Option<Mapping>)
    ensures
        match r {
            Some(mapping) => yaml_mapping(bytes@) == Some(mapping_contents(mapping)),
            None => yaml_mapping(bytes@) is None,
        },
{
    serde_yaml::from_slice::<Mapping>(bytes).ok()
}

/// A text as a JSON string.
pub uninterp spec fn json_string(text: Seq<char>) -> Seq<char>;

/// `serde_json::to_string` of a text, which always succeeds: the text in double
/// quotes, with what JSON cannot hold in a string escaped.
#[verifier::external_body]
pub(crate) fn quoted_text(text: &str) -> (r: String)
    ensures
        r@ == json_string(text@),
{
    serde_json::to_string(text).unwrap_or_default()
}

/// A text as a quoted YAML key.
pub fn yaml_quoted_string(text: &str) -> (r: String)
    ensures
        r@ == json_string(text@),
{
    quoted_text(text)
}

// ---------------------------------------------------------------------------
// Reading values
// ---------------------------------------------------------------------------
/// A value without the tags around it.
pub open spec fn untagged(value: Yaml) -> Yaml
    decreases value,
{
    match value {
        Yaml::Tagged(_, inner) => untagged(*inner),
        _ => value,
    }
}

/// The outermost layer of a value below its tags.
pub fn untagged_shape(value: &Value) -> (r: YamlShape)
    ensures
        shape_contents(r) == untagged(yaml_contents(*value)),
    decreases yaml_contents(*value),
{
    match yaml_shape(value) {
        YamlShape::Tagged(_, inner) => untagged_shape(&inner),
        shape => shape,
    }
}

/// The entries of a value that is a mapping, tagged or not.
pub open spec fn mapping_of(value: Yaml) -> Option<Seq<(Yaml, Yaml)>> {
    match untagged(value) {
        Yaml::Mapping(entries) => Some(entries),
        _ => None,
    }
}

/// The entries of a mapping, tagged or not.
pub fn as_mapping(value: &Value) -> (r: Option<Vec<(Value, Value)>>)
    ensures
        match r {
            Some(entries) => mapping_of(yaml_contents(*value)) == Some(entries_contents(entries@)),
            None => mapping_of(yaml_contents(*value)) is None,
        },
{
    match untagged_shape(value) {
        YamlShape::Mapping(entries) => Some(entries),
        _ => None,
    }
}

/// The text of a value that is one, tagged or not.
pub open spec fn text_of(value: Yaml) -> Option<Seq<char>> {
    match untagged(value) {
        Yaml::Text(text) => Some(text),
        _ => None,
    }
}

/// The text of a value that is one, tagged or not.
pub fn as_text(value: &Value) -> (r: Option<String>)
    ensures
        text_option(r) == text_of(yaml_contents(*value)),
{
    match untagged_shape(value) {
        YamlShape::Text(text) => Some(text),
        _ => None,
    }
}

/// The value of a text key, where a mapping has it.
pub open spec fn entry_of(entries: Seq<(Yaml, Yaml)>, key: Seq<char>) -> Option<Yaml>
    decreases entries.len(),
{
    if entries.len() == 0 {
        None
    } else if entries[0].0 == Yaml::Text(key) {
        Some(entries[0].1)
    } else {
        entry_of(entries.skip(1), key)
    }
}

/// The value of the first entry with a key.
pub fn yaml_mapping_get(entries: &Vec<(Value, Value)>, key: &str) -> (r: Option<Value>)
    ensures
        match r {
            Some(value) => entry_of(entries_contents(entries@), key@) == Some(yaml_contents(value)),
            None => entry_of(entries_contents(entries@), key@) is None,
        },
{
    let ghost all = entries_contents(entries@);
    let mut i: usize = 0;
    proof {
        assert(all.skip(0) =~= all);
    }
    while i < entries.len()
        invariant
            i <= entries@.len(),
            all == entries_contents(entries@),
            entry_of(all, key@) == entry_of(all.skip(i as int), key@),
        decreases entries@.len() - i,
    {
        proof {
            assert(all.skip(i as int).skip(1) =~= all.skip(i + 1));
            assert(all.skip(i as int)[0] == all[i as int]);
        }
        match yaml_shape(&entries[i].0) {
            YamlShape::Text(text) => {
                if same(text.as_str(), key) {
                    return Some(entries[i].1.clone());
                }
            },
            _ => {},
        }
        i += 1;
    }
    None
}

/// A key as it is shown.
pub open spec fn key_label(key: Yaml) -> Seq<char> {
    match key {
        Yaml::Text(text) => text,
        Yaml::Number(text, _, _) => text,
        Yaml::Bool(value) => if value {
            "true"@
        } else {
            "false"@
        },
        _ => yaml_debug(key),
    }
}

/// A truth value as it is written.
pub fn bool_text(value: bool) -> (r: String)
    ensures
        r@ == (if value {
            "true"@
        } else {
            "false"@
        }),
{
    if value {
        "true".to_owned()
    } else {
        "false".to_owned()
    }
}

/// A key as it is shown.
pub fn yaml_key_label(key: &Value) -> (r: String)
    ensures
        r@ == key_label(yaml_contents(*key)),
{
    match yaml_shape(key) {
        YamlShape::Text(text) => text,
        YamlShape::Number(number) => number.text,
        YamlShape::Bool(value) => bool_text(value),
        _ => debug_text(key),
    }
}

/// The number of a frame that is referred to by number: a whole number from one
/// on.
pub open spec fn frame_number(key: Yaml) -> Option<int> {
    match key {
        Yaml::Number(_, Some(number), _) => if 0 < number <= usize::MAX {
            Some(number as int)
        } else {
            None
        },
        _ => None,
    }
}

/// The number that the key of a frame gives.
pub fn frame_number_from_key(key: &Value) -> (r: Option<usize>)
    ensures
        match r {
            Some(number) => frame_number(yaml_contents(*key)) == Some(number as int),
            None => frame_number(yaml_contents(*key)) is None,
        },
{
    match yaml_shape(key) {
        YamlShape::Number(number) => match number.signed {
            Some(signed) => if signed > 0 && (signed as u64) as u128 <= usize::MAX as u128 {
                Some(signed as usize)
            } else {
                None
            },
            None => None,
        },
        _ => None,
    }
}

} // verus!

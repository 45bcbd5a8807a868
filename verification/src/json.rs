//! JSON values.
//!
//! Tool inputs, tool schemas and provider metadata are `serde_json::Value`s.
//! To the proofs such a value is opaque; [`json_model`] names the tree that it
//! holds, and the functions here say what each operation of `serde_json` does
//! to that tree.
use serde_json::Value;
use vstd::prelude::*;

verus! {

#[verifier::external_type_specification]
#[verifier::external_body]
pub struct ExJsonValue(serde_json::Value);

/// A JSON number.
pub enum JsonNumber {
    /// A number that is held as an integer.
    Integer(int),
    /// A number that is held as floating point. Equal numbers, zero and negative
    /// zero among them, share one mark.
    Float(nat),
}

/// The tree that a JSON value holds.
pub enum Json {
    Null,
    Bool(bool),
    Number(JsonNumber),
    Text(Seq<char>),
    List(Seq<Json>),
    Object(Map<Seq<char>, Json>),
}

/// What a `serde_json::Value` holds.
pub uninterp spec fn json_model(value: serde_json::Value) -> Json;

/// The trees of a list of values.
pub open spec fn json_models(values: Seq<serde_json::Value>) -> Seq<Json> {
    values.map_values(|value: serde_json::Value| json_model(value))
}

/// The value that `serde_json::from_str` makes of a text, where the text is JSON.
pub uninterp spec fn json_value(text: Seq<char>) -> Option<serde_json::Value>;

/// The compact text that `serde_json::to_string` makes of a value, where it makes one.
pub uninterp spec fn compact_json(value: serde_json::Value) -> Option<Seq<char>>;

/// The value that holds `null`.
pub open spec fn null_value() -> serde_json::Value {
    choose|value: serde_json::Value| json_model(value) == Json::Null
}

/// The value that a text stands for, and `null` where the text is not JSON.
pub open spec fn parsed_json(text: Seq<char>) -> serde_json::Value {
    match json_value(text) {
        Some(value) => value,
        None => null_value(),
    }
}

/// The compact text of a value, which is empty where it has none.
pub open spec fn json_text(value: serde_json::Value) -> Seq<char> {
    match compact_json(value) {
        Some(text) => text,
        None => Seq::empty(),
    }
}

/// Cloning a `serde_json::Value` gives the same value.
pub assume_specification[ <serde_json::Value as Clone>::clone ](value: &serde_json::Value) -> (r:
    serde_json::Value)
    ensures
        r == *value,
;

/// `Value::is_null` tells whether the value is `null`.
pub assume_specification[ serde_json::Value::is_null ](value: &serde_json::Value) -> (r: bool)
    ensures
        r == (json_model(*value) is Null),
;

/// `Value::is_string` tells whether the value is a string.
pub assume_specification[ serde_json::Value::is_string ](value: &serde_json::Value) -> (r: bool)
    ensures
        r == (json_model(*value) is Text),
;

/// `Value::is_boolean` tells whether the value is `true` or `false`.
pub assume_specification[ serde_json::Value::is_boolean ](value: &serde_json::Value) -> (r: bool)
    ensures
        r == (json_model(*value) is Bool),
;

/// `Value::is_object` tells whether the value is an object.
pub assume_specification[ serde_json::Value::is_object ](value: &serde_json::Value) -> (r: bool)
    ensures
        r == (json_model(*value) is Object),
;

/// `Value::is_array` tells whether the value is a list.
pub assume_specification[ serde_json::Value::is_array ](value: &serde_json::Value) -> (r: bool)
    ensures
        r == (json_model(*value) is List),
;

/// `Value::is_number` tells whether the value is a number.
pub assume_specification[ serde_json::Value::is_number ](value: &serde_json::Value) -> (r: bool)
    ensures
        r == (json_model(*value) is Number),
;

/// `Value::is_i64` tells whether the value is an integer that fits `i64`.
pub assume_specification[ serde_json::Value::is_i64 ](value: &serde_json::Value) -> (r: bool)
    ensures
        r == (json_model(*value) matches Json::Number(JsonNumber::Integer(n)) && i64::MIN <= n
            <= i64::MAX),
;

/// `Value::is_u64` tells whether the value is an integer that fits `u64`.
pub assume_specification[ serde_json::Value::is_u64 ](value: &serde_json::Value) -> (r: bool)
    ensures
        r == (json_model(*value) matches Json::Number(JsonNumber::Integer(n)) && 0 <= n
            <= u64::MAX),
;

/// `Value::as_str` gives the characters of a string value.
pub assume_specification[ serde_json::Value::as_str ](value: &serde_json::Value) -> (r: Option<
    &str,
>)
    ensures
        match r {
            Some(text) => json_model(*value) == Json::Text(text@),
            None => !(json_model(*value) is Text),
        },
;

/// `Value::as_array` gives the elements of a list value.
pub assume_specification[ serde_json::Value::as_array ](value: &serde_json::Value) -> (r: Option<
    &Vec<serde_json::Value>,
>)
    ensures
        match r {
            Some(items) => json_model(*value) == Json::List(json_models(items@)),
            None => !(json_model(*value) is List),
        },
;

/// The member of an object, by its key; nothing else has members.
pub open spec fn member(json: Json, key: Seq<char>) -> Option<Json> {
    match json {
        Json::Object(map) => if map.dom().contains(key) {
            Some(map[key])
        } else {
            None
        },
        _ => None,
    }
}

/// The characters of a string member.
pub open spec fn text_member(json: Json, key: Seq<char>) -> Option<Seq<char>> {
    match member(json, key) {
        Some(Json::Text(text)) => Some(text),
        _ => None,
    }
}

/// `Value::get` with a key gives that member of an object, and `None` of any
/// other value.
#[verifier::external_body]
pub(crate) fn get_member<'a>(value: &'a Value, key: &str) -> (r: Option<&'a Value>)
    ensures
        match r {
            Some(found) => member(json_model(*value), key@) == Some(json_model(*found)),
            None => member(json_model(*value), key@) is None,
        },
{
    value.get(key)
}

/// `==` on two `serde_json::Value`s compares the trees that they hold; the order
/// of an object's members plays no part.
#[verifier::external_body]
pub(crate) fn same_json(a: &Value, b: &Value) -> (r: bool)
    ensures
        r == (json_model(*a) == json_model(*b)),
{
    a == b
}

/// Assigning to `value[key]` sets that member; `null` becomes an object first.
/// Any other value makes `serde_json` panic.
#[verifier::external_body]
pub(crate) fn set_member(value: &mut Value, key: &str, entry: Value)
    requires
        json_model(*old(value)) is Object || json_model(*old(value)) is Null,
    ensures
        json_model(*final(value)) == Json::Object(
            match json_model(*old(value)) {
                Json::Object(map) => map.insert(key@, json_model(entry)),
                _ => Map::empty().insert(key@, json_model(entry)),
            },
        ),
{
    value[key] = entry;
}

/// `Map::extend` adds every member of `incoming`, which wins where both have one.
#[verifier::external_body]
pub(crate) fn extend_object(value: &mut Value, incoming: Value)
    requires
        json_model(*old(value)) is Object,
        json_model(incoming) is Object,
    ensures
        json_model(*final(value)) == Json::Object(
            json_model(*old(value))->Object_0.union_prefer_right(json_model(incoming)->Object_0),
        ),
{
    if let (Value::Object(map), Value::Object(added)) = (value, incoming) {
        map.extend(added);
    }
}

/// `Value::String` makes a string value.
#[verifier::external_body]
pub(crate) fn json_string(text: &str) -> (r: Value)
    ensures
        json_model(r) == Json::Text(text@),
{
    Value::String(text.to_string())
}

/// `Value::Null` is the one value that holds `null`.
#[verifier::external_body]
fn json_null() -> (r: Value)
    ensures
        json_model(r) == Json::Null,
        forall|value: Value| #[trigger] json_model(value) == Json::Null ==> value == r,
{
    Value::Null
}

/// `serde_json::from_str` parses a text; what it makes of it depends on the text alone.
#[verifier::external_body]
fn read_json(text: &str) -> (r: Option<Value>)
    ensures
        r == json_value(text@),
{
    serde_json::from_str(text).ok()
}

/// `serde_json::to_string` gives the compact text of a value, which depends on the value alone.
#[verifier::external_body]
fn write_json(value: &Value) -> (r: Option<String>)
    ensures
        r.deep_view() == compact_json(*value),
{
    serde_json::to_string(value).ok()
}

/// The value that a text stands for, and `null` where the text is not JSON.
pub fn parse_json(text: &str) -> (r: Value)
    ensures
        r == parsed_json(text@),
{
    match read_json(text) {
        Some(value) => value,
        None => json_null(),
    }
}

/// The compact text of a value, which is empty where it has none.
pub fn render_json(value: &Value) -> (r: String)
    ensures
        r@ == json_text(*value),
{
    match write_json(value) {
        Some(text) => text,
        None => String::new(),
    }
}

/// The characters of a string member.
pub fn json_str<'a>(value: &'a Value, key: &str) -> (r: Option<&'a str>)
    ensures
        match r {
            Some(text) => text_member(json_model(*value), key@) == Some(text@),
            None => text_member(json_model(*value), key@) is None,
        },
{
    match get_member(value, key) {
        Some(found) => found.as_str(),
        None => None,
    }
}

} // verus!

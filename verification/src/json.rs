//! JSON values: what they hold, and the calls that read and build them.
use serde_json::Value;
use vstd::prelude::*;

verus! {

/// A JSON value.
#[verifier::external_type_specification]
#[verifier::external_body]
pub struct ExValue(serde_json::Value);

/// What a JSON value is.
pub enum JsonView {
    Null,
    Flag(bool),
    /// An integer from zero on.
    Unsigned(u64),
    /// An integer below zero.
    Negative(i64),
    /// Any other number.
    Other(Value),
    Text(Seq<char>),
    List(Seq<JsonView>),
    Members(Map<Seq<char>, JsonView>),
}

/// What a JSON value holds.
pub uninterp spec fn json_of(value: Value) -> JsonView;

/// What some JSON values hold.
pub open spec fn jsons_of(values: Seq<Value>) -> Seq<JsonView> {
    values.map_values(|value: Value| json_of(value))
}

/// What some bytes hold as JSON, or what is said of the error.
pub uninterp spec fn parsed_json(bytes: Seq<u8>) -> Result<JsonView, Seq<char>>;

/// A JSON value written over several lines, or what is said of the error.
pub uninterp spec fn pretty_json(json: JsonView) -> Result<Seq<u8>, Seq<char>>;

/// A JSON value written without white space, or what is said of the error.
pub uninterp spec fn compact_json(json: JsonView) -> Result<Seq<u8>, Seq<char>>;

/// The views of bytes or of an error.
pub open spec fn bytes_outcome(result: Result<Vec<u8>, String>) -> Result<Seq<u8>, Seq<char>> {
    match result {
        Ok(bytes) => Ok(bytes@),
        Err(error) => Err(error@),
    }
}

/// The view of a JSON value or of an error.
pub open spec fn json_outcome(result: Result<Value, String>) -> Result<JsonView, Seq<char>> {
    match result {
        Ok(value) => Ok(json_of(value)),
        Err(error) => Err(error@),
    }
}

/// Whether a JSON value holds integers as its only numbers and nests at most `depth` lists and
/// objects.
pub open spec fn plain(json: JsonView, depth: nat) -> bool
    decreases depth, json,
{
    match json {
        JsonView::Other(_) => false,
        JsonView::List(items) => depth > 0 && forall|i: int|
            0 <= i < items.len() ==> plain(#[trigger] items[i], (depth - 1) as nat),
        JsonView::Members(members) => depth > 0 && forall|key: Seq<char>|
            #[trigger] members.contains_key(key) ==> plain(members[key], (depth - 1) as nat),
        _ => true,
    }
}

/// Whether written bytes and a line end read as the value that was written.
pub open spec fn reads_back(written: Result<Seq<u8>, Seq<char>>, json: JsonView) -> bool {
    written matches Ok(bytes) && (parsed_json(bytes.push(10)) matches Ok(read) && read == json)
}

/// The nesting up to which a value that was written can be read again.
pub const MAX_NESTING: usize = 127;

/// `serde_json::from_slice` reads a JSON value. What it accepts and what it says of an error is
/// not stated.
#[verifier::external_body]
pub(crate) fn parse_json(bytes: &[u8]) -> (result: Result<Value, String>)
    ensures
        json_outcome(result) == parsed_json(bytes@),
{
    serde_json::from_slice(bytes).map_err(|error| error.to_string())
}

/// `serde_json::to_vec_pretty` writes a JSON value over several lines. The layout is not stated;
/// what was written can be read again, with or without a line end behind it, where all numbers are
/// integers and the value is not nested beyond the limit of the reader.
#[verifier::external_body]
pub(crate) fn write_pretty(value: &Value) -> (result: Result<Vec<u8>, String>)
    ensures
        bytes_outcome(result) == pretty_json(json_of(*value)),
        plain(json_of(*value), MAX_NESTING as nat) ==> reads_back(
            bytes_outcome(result),
            json_of(*value),
        ),
{
    serde_json::to_vec_pretty(value).map_err(|error| error.to_string())
}

/// `serde_json::to_vec` writes a JSON value without white space. The text is not stated; what was
/// written can be read again, as with the longer form.
#[verifier::external_body]
pub(crate) fn write_compact(value: &Value) -> (result: Result<Vec<u8>, String>)
    ensures
        bytes_outcome(result) == compact_json(json_of(*value)),
        plain(json_of(*value), MAX_NESTING as nat) ==> reads_back(
            bytes_outcome(result),
            json_of(*value),
        ),
{
    serde_json::to_vec(value).map_err(|error| error.to_string())
}

/// `Value::is_object` tells whether a value is an object.
pub assume_specification[ serde_json::Value::is_object ](value: &serde_json::Value) -> (result: bool)
    ensures
        result == (json_of(*value) is Members),
;

/// `Value::as_str` gives the text that a value is.
pub assume_specification[ serde_json::Value::as_str ](value: &serde_json::Value) -> (text: Option<
    &str,
>)
    ensures
        match text {
            Some(text) => json_of(*value) == JsonView::Text(text@),
            None => !(json_of(*value) is Text),
        },
;

/// `Value::as_u64` gives the integer that a value is, if it is not negative.
pub assume_specification[ serde_json::Value::as_u64 ](value: &serde_json::Value) -> (number: Option<
    u64,
>)
    ensures
        match number {
            Some(number) => json_of(*value) == JsonView::Unsigned(number),
            None => !(json_of(*value) is Unsigned),
        },
;

/// `Value::as_array` gives the items of the list that a value is.
pub assume_specification[ serde_json::Value::as_array ](value: &serde_json::Value) -> (items: Option<
    &Vec<serde_json::Value>,
>)
    ensures
        match items {
            Some(items) => json_of(*value) == JsonView::List(jsons_of(items@)),
            None => !(json_of(*value) is List),
        },
;

/// The member of an object under a key.
pub open spec fn member(json: JsonView, key: Seq<char>) -> Option<JsonView> {
    match json {
        JsonView::Members(members) => if members.contains_key(key) {
            Some(members[key])
        } else {
            None
        },
        _ => None,
    }
}

/// `Value::get` finds the member of an object under a key; another value has none.
#[verifier::external_body]
pub(crate) fn get_member<'a>(value: &'a Value, key: &str) -> (found: Option<&'a Value>)
    ensures
        match found {
            Some(inner) => member(json_of(*value), key@) == Some(json_of(*inner)),
            None => member(json_of(*value), key@) is None,
        },
{
    value.get(key)
}

/// Whether an object has this many members.
pub open spec fn has_members(json: JsonView, count: nat) -> bool {
    json matches JsonView::Members(members) && members.dom().finite() && members.dom().len()
        == count
}

/// `Map::len` counts the members of an object.
#[verifier::external_body]
pub(crate) fn count_members(value: &Value) -> (count: usize)
    requires
        json_of(*value) is Members,
    ensures
        has_members(json_of(*value), count as nat),
{
    value.as_object().map_or(0, |members| members.len())
}

/// `Map::remove` takes a member out of an object.
#[verifier::external_body]
pub(crate) fn take_member(value: &mut Value, key: &str) -> (taken: Option<Value>)
    requires
        json_of(*old(value)) is Members,
    ensures
        json_of(*final(value)) == JsonView::Members(
            json_of(*old(value))->Members_0.remove(key@),
        ),
        match taken {
            Some(inner) => member(json_of(*old(value)), key@) == Some(json_of(inner)),
            None => member(json_of(*old(value)), key@) is None,
        },
{
    value.as_object_mut().and_then(|members| members.remove(key))
}

/// `Map::insert` puts a member into an object, in place of one with the same key.
#[verifier::external_body]
pub(crate) fn put_member(value: &mut Value, key: &str, inner: Value)
    requires
        json_of(*old(value)) is Members,
    ensures
        json_of(*final(value)) == JsonView::Members(
            json_of(*old(value))->Members_0.insert(key@, json_of(inner)),
        ),
{
    value.as_object_mut().and_then(|members| members.insert(key.to_owned(), inner));
}

/// `Map::new` makes an object without members.
#[verifier::external_body]
pub(crate) fn empty_object() -> (value: Value)
    ensures
        json_of(value) == JsonView::Members(Map::empty()),
{
    Value::Object(serde_json::Map::new())
}

/// `Value::Array` makes a list of values.
#[verifier::external_body]
pub(crate) fn list_value(items: Vec<Value>) -> (value: Value)
    ensures
        json_of(value) == JsonView::List(jsons_of(items@)),
{
    Value::Array(items)
}

/// The items that a `Value::Array` holds, moved out of it.
#[verifier::external_body]
pub(crate) fn list_items(value: Value) -> (items: Vec<Value>)
    requires
        json_of(value) is List,
    ensures
        json_of(value) == JsonView::List(jsons_of(items@)),
{
    match value {
        Value::Array(items) => items,
        _ => Vec::new(),
    }
}

/// `Value::String` makes a text.
#[verifier::external_body]
pub(crate) fn text_value(text: &str) -> (value: Value)
    ensures
        json_of(value) == JsonView::Text(text@),
{
    Value::String(text.to_owned())
}

/// `Value::from` makes a number.
#[verifier::external_body]
pub(crate) fn number_value(number: u64) -> (value: Value)
    ensures
        json_of(value) == JsonView::Unsigned(number),
{
    Value::from(number)
}

} // verus!

//! JSON values, as `serde_json` holds them, and what they say.

use serde_json::Value;
use vstd::prelude::*;

use crate::measure;
use crate::text;

verus! {

/// What a JSON value says. A number is told apart by how `serde_json` holds it:
/// a non-negative integer, a negative one, or a double by its bits.
pub enum Json {
    Null,
    Bool(bool),
    Unsigned(u64),
    Negative(i64),
    Double(u64),
    Text(Seq<char>),
    List(Seq<Json>),
    Object(Map<Seq<char>, Json>),
}

/// `serde_json`'s value, opaque here: what it holds is `json_of`.
#[verifier::external_type_specification]
#[verifier::external_body]
pub struct ExValue(serde_json::Value);

/// What a `serde_json` value holds.
pub uninterp spec fn json_of(value: Value) -> Json;

/// What `serde_json` makes of one text: the value it holds, or the sentence
/// the failure is described by.
pub uninterp spec fn json_text(line: Seq<char>) -> Result<Json, Seq<char>>;

/// What every value of a list holds.
pub open spec fn json_list(values: Seq<Value>) -> Seq<Json> {
    values.map_values(|v: Value| json_of(v))
}

/// The member of an object under a key; nothing for a value that is no object.
pub open spec fn field(json: Json, key: Seq<char>) -> Option<Json> {
    match json {
        Json::Object(members) => if members.contains_key(key) {
            Some(members[key])
        } else {
            None
        },
        _ => None,
    }
}

/// The text under a key, where there is one and it is text.
pub open spec fn field_text(json: Json, key: Seq<char>) -> Option<Seq<char>> {
    match field(json, key) {
        Some(Json::Text(text)) => Some(text),
        _ => None,
    }
}

/// The non-negative integer under a key, where there is one.
pub open spec fn field_u64(json: Json, key: Seq<char>) -> Option<u64> {
    match field(json, key) {
        Some(Json::Unsigned(n)) => Some(n),
        _ => None,
    }
}

/// The integer a number holds, where it fits in 64 signed bits.
pub open spec fn integer_of(json: Json) -> Option<i64> {
    match json {
        Json::Unsigned(n) => if n <= i64::MAX {
            Some(n as i64)
        } else {
            None
        },
        Json::Negative(n) => Some(n),
        _ => None,
    }
}

/// The length a number says, in millionths of its unit.
pub open spec fn length_of(json: Json) -> Option<i64> {
    match json {
        Json::Unsigned(n) => Some(measure::whole(n as int) as i64),
        Json::Negative(n) => Some(measure::whole(n as int) as i64),
        Json::Double(bits) => Some(measure::millionths(bits) as i64),
        _ => None,
    }
}

/// The length under a key, where there is a number there.
pub open spec fn field_length(json: Json, key: Seq<char>) -> Option<i64> {
    match field(json, key) {
        Some(found) => length_of(found),
        None => None,
    }
}

/// The truth under a key, where there is one.
pub open spec fn field_bool(json: Json, key: Seq<char>) -> Option<bool> {
    match field(json, key) {
        Some(Json::Bool(b)) => Some(b),
        _ => None,
    }
}

/// How an integer is held: non-negative ones apart from negative ones.
pub open spec fn integer(n: int) -> Json {
    if n >= 0 {
        Json::Unsigned(n as u64)
    } else {
        Json::Negative(n as i64)
    }
}

/// A length as a number with a decimal point.
pub open spec fn point_decimal(length: int) -> Seq<char> {
    if length % measure::UNIT as int == 0 {
        measure::written(length) + ".0"@
    } else {
        measure::written(length)
    }
}

/// A length as the number a JSON text says it with.
pub open spec fn length_json(length: int) -> Json {
    match json_text(point_decimal(length)) {
        Ok(json) => json,
        Err(_) => Json::Null,
    }
}

/// `serde_json::from_str`: reads one JSON text. The result is a function of the
/// text alone; a failure comes back as the sentence its `Display` writes.
#[verifier::external_body]
pub(crate) fn from_text(line: &str) -> (r: Result<Value, String>)
    ensures
        match r {
            Ok(value) => json_text(line@) == Ok::<Json, Seq<char>>(json_of(value)),
            Err(sentence) => json_text(line@) == Err::<Json, Seq<char>>(sentence@),
        },
{
    serde_json::from_str(line).map_err(|e| e.to_string())
}

/// `Value::as_str`: the text of a string value, nothing for any other.
pub assume_specification[ serde_json::Value::as_str ](value: &Value) -> (r: Option<&str>)
    ensures
        text::slice_of(r) == (match json_of(*value) {
            Json::Text(text) => Some(text),
            _ => None,
        }),
;

/// `Value::as_u64`: the number of a value held as a non-negative integer,
/// nothing for any other.
pub assume_specification[ serde_json::Value::as_u64 ](value: &Value) -> (r: Option<u64>)
    ensures
        r == (match json_of(*value) {
            Json::Unsigned(n) => Some(n),
            _ => None,
        }),
;

/// `Value::as_i64`: the number of a value held as an integer that fits.
pub assume_specification[ serde_json::Value::as_i64 ](value: &Value) -> (r: Option<i64>)
    ensures
        r == integer_of(json_of(*value)),
;

/// `Value::as_bool`: the truth of a boolean value, nothing for any other.
pub assume_specification[ serde_json::Value::as_bool ](value: &Value) -> (r: Option<bool>)
    ensures
        r == (match json_of(*value) {
            Json::Bool(b) => Some(b),
            _ => None,
        }),
;

/// `Value::is_f64`: whether the value is a number held as a double.
pub assume_specification[ serde_json::Value::is_f64 ](value: &Value) -> (r: bool)
    ensures
        r == (json_of(*value) is Double),
;

/// `Value::as_f64` and `f64::to_bits` on a number held as a double: its bits.
#[verifier::external_body]
fn double_bits(value: &Value) -> (r: Option<u64>)
    requires
        json_of(*value) is Double,
    ensures
        r == Some(json_of(*value)->Double_0),
{
    value.as_f64().map(|number| number.to_bits())
}

/// `Value::is_null`: whether the value is the null value.
pub assume_specification[ serde_json::Value::is_null ](value: &Value) -> (r: bool)
    ensures
        r == (json_of(*value) is Null),
;

/// `Value::is_object`: whether the value is an object.
pub assume_specification[ serde_json::Value::is_object ](value: &Value) -> (r: bool)
    ensures
        r == (json_of(*value) is Object),
;

/// `Value::as_array`: the items of an array value, nothing for any other.
pub assume_specification[ serde_json::Value::as_array ](value: &Value) -> (r: Option<&Vec<Value>>)
    ensures
        match json_of(*value) {
            Json::List(items) => r is Some && json_list(r->0@) == items,
            _ => r is None,
        },
;

/// `Value::get` by a string key: the member of an object, nothing where the
/// value is no object or has no such member.
#[verifier::external_body]
pub(crate) fn member<'a>(value: &'a Value, key: &str) -> (r: Option<&'a Value>)
    ensures
        match field(json_of(*value), key@) {
            Some(json) => r is Some && json_of(*r->0) == json,
            None => r is None,
        },
{
    value.get(key)
}

/// `Value::clone`: a value that holds the same.
pub assume_specification[ <serde_json::Value as Clone>::clone ](value: &Value) -> (r: Value)
    ensures
        json_of(r) == json_of(*value),
;

/// `Value::Null`, the null value.
#[verifier::external_body]
pub(crate) fn null() -> (r: Value)
    ensures
        json_of(r) == Json::Null,
{
    Value::Null
}

/// `Value::from(&str)`: a string value with that text.
#[verifier::external_body]
pub(crate) fn string(text: &str) -> (r: Value)
    ensures
        json_of(r) == Json::Text(text@),
{
    Value::from(text)
}

/// `Value::from(bool)`: a boolean value.
#[verifier::external_body]
pub(crate) fn boolean(b: bool) -> (r: Value)
    ensures
        json_of(r) == Json::Bool(b),
{
    Value::from(b)
}

/// `Value::from(u64)`: a number value held as a non-negative integer.
#[verifier::external_body]
pub(crate) fn unsigned(n: u64) -> (r: Value)
    ensures
        json_of(r) == Json::Unsigned(n),
{
    Value::from(n)
}

/// `Value::from(i64)`: a number value held as an integer.
#[verifier::external_body]
pub(crate) fn signed(n: i64) -> (r: Value)
    ensures
        json_of(r) == integer(n as int),
{
    Value::from(n)
}

/// `Value::from(Vec<Value>)`: an array of those values in that order.
#[verifier::external_body]
pub(crate) fn list(items: Vec<Value>) -> (r: Value)
    ensures
        json_of(r) == Json::List(json_list(items@)),
{
    Value::from(items)
}

/// `Map::new`, as an object value: an object with no members.
#[verifier::external_body]
pub(crate) fn object() -> (r: Value)
    ensures
        json_of(r) == Json::Object(Map::empty()),
{
    Value::Object(serde_json::Map::new())
}

/// `Map::insert` on an object value: the member under the key is replaced or
/// added, and every other stays.
#[verifier::external_body]
pub(crate) fn insert(object: &mut Value, key: &str, value: Value)
    requires
        json_of(*old(object)) is Object,
    ensures
        json_of(*final(object)) == Json::Object(
            json_of(*old(object))->Object_0.insert(key@, json_of(value)),
        ),
{
    object.as_object_mut().map(|members| members.insert(key.to_owned(), value));
}

/// The text under a key, where there is one and it is text.
pub fn text_at<'a>(value: &'a Value, key: &str) -> (r: Option<&'a str>)
    ensures
        text::slice_of(r) == field_text(json_of(*value), key@),
{
    match member(value, key) {
        Some(found) => found.as_str(),
        None => None,
    }
}

/// The non-negative integer under a key, where there is one.
pub fn u64_at(value: &Value, key: &str) -> (r: Option<u64>)
    ensures
        r == field_u64(json_of(*value), key@),
{
    match member(value, key) {
        Some(found) => found.as_u64(),
        None => None,
    }
}

/// A length as the number a JSON text says it with: what `serde_json` reads in its
/// decimals.
pub fn length_value(length: i64) -> (r: Value)
    ensures
        json_of(r) == length_json(length as int),
{
    let mut decimals = measure::write(length);
    if length % measure::UNIT == 0 {
        decimals.append(".0");
    }
    match from_text(decimals.as_str()) {
        Ok(value) => value,
        Err(_) => null(),
    }
}

/// The length a number says, in millionths of its unit.
pub fn length(value: &Value) -> (r: Option<i64>)
    ensures
        r == length_of(json_of(*value)),
{
    if let Some(n) = value.as_i64() {
        return Some(measure::from_whole(n));
    }
    if let Some(n) = value.as_u64() {
        assert(n > i64::MAX);
        return Some(i64::MAX);
    }
    if !value.is_f64() {
        return None;
    }
    match double_bits(value) {
        Some(bits) => Some(measure::from_double(bits)),
        None => None,
    }
}

/// The length under a key, where there is a number there.
pub fn length_at(value: &Value, key: &str) -> (r: Option<i64>)
    ensures
        r == field_length(json_of(*value), key@),
{
    match member(value, key) {
        Some(found) => length(found),
        None => None,
    }
}

/// The truth under a key, where there is one.
pub fn bool_at(value: &Value, key: &str) -> (r: Option<bool>)
    ensures
        r == field_bool(json_of(*value), key@),
{
    match member(value, key) {
        Some(found) => found.as_bool(),
        None => None,
    }
}

/// An integer is held as itself: what is read of it is what was written, where it fits.
pub proof fn an_integer_reads_back(n: i64)
    ensures
        integer_of(integer(n as int)) == Some(n),
        integer(n as int) is Unsigned <==> n >= 0,
{
}

/// A whole number says as many millionths of its unit as a million times itself, as far out
/// as a length can be, and a number with a point the nearest to what it stands for.
pub proof fn a_number_says_its_length(number: Json)
    ensures
        number matches Json::Unsigned(n) ==> length_of(number) == (if n * 1_000_000 <= i64::MAX {
            Some((n * 1_000_000) as i64)
        } else {
            Some(i64::MAX)
        }),
        number matches Json::Negative(n) ==> n < 0 ==> length_of(number) == (if n * 1_000_000
            >= -i64::MAX {
            Some((n * 1_000_000) as i64)
        } else {
            Some((-i64::MAX) as i64)
        }),
        number matches Json::Double(bits) ==> length_of(number) == Some(
            measure::millionths(bits) as i64,
        ),
        length_of(number) is Some <==> number is Unsigned || number is Negative || number is Double,
{
}

/// A length is written as a number with a point: as it reads back, and with one zero behind
/// the point where it is whole.
pub proof fn a_length_has_a_point(length: int)
    ensures
        ({
            let whole = length % 1_000_000 == 0;
            let written = measure::written(length);
            let said = point_decimal(length);
            &&& said.take(written.len() as int) == written
            &&& said.len() == written.len() + (if whole {
                2int
            } else {
                0
            })
            &&& whole ==> said[written.len() as int] == '.' && said[written.len() as int + 1] == '0'
        }),
{
    reveal_strlit(".0");
    let written = measure::written(length);
    assert(point_decimal(length).take(written.len() as int) =~= written);
}

} // verus!

//! JSON values, as `serde_json` holds them.

use vstd::prelude::*;

verus! {

/// What a JSON value is.
pub enum Json {
    Null,
    Bool(bool),
    /// A number without a fraction or an exponent.
    Int(int),
    /// The bits of any other number.
    Fraction(u64),
    Text(Seq<char>),
    Array(Seq<Json>),
    Object(Map<Seq<char>, Json>),
}

impl Json {
    /// The member of an object with a key; null where there is none.
    pub open spec fn member(self, key: Seq<char>) -> Json {
        match self {
            Json::Object(m) => if m.dom().contains(key) {
                m[key]
            } else {
                Json::Null
            },
            _ => Json::Null,
        }
    }

    /// The object with one member more, or with another value for a member.
    pub open spec fn with(self, key: Seq<char>, value: Json) -> Json {
        match self {
            Json::Object(m) => Json::Object(m.insert(key, value)),
            _ => self,
        }
    }

    /// The text, or `default` where this is something else.
    pub open spec fn text_or(self, default: Seq<char>) -> Seq<char> {
        match self {
            Json::Text(t) => t,
            _ => default,
        }
    }

    /// The number, or `default` where this is no integer of 64 bits.
    pub open spec fn int_or(self, default: int) -> int {
        match self {
            Json::Int(n) => if i64::MIN <= n <= i64::MAX {
                n
            } else {
                default
            },
            _ => default,
        }
    }

    /// The object without members.
    pub open spec fn no_members() -> Json {
        Json::Object(Map::empty())
    }
}

/// `serde_json::Value`: a JSON value.
#[verifier::external_type_specification]
#[verifier::external_body]
pub struct ExValue(serde_json::Value);

/// What a `serde_json::Value` holds.
pub uninterp spec fn json_of(value: serde_json::Value) -> Json;

/// The text that `serde_json` writes for a value.
pub uninterp spec fn json_text(json: Json) -> Seq<char>;

/// The value that `serde_json` reads from a document; none where it is not one.
pub uninterp spec fn json_document(bytes: Seq<u8>) -> Option<Json>;

/// What a list of values holds.
pub open spec fn jsons(values: Seq<serde_json::Value>) -> Seq<Json> {
    values.map_values(|v: serde_json::Value| json_of(v))
}

/// `serde_json::Map::new`, as a value: an object without members.
#[verifier::external_body]
pub(crate) fn new_object() -> (r: serde_json::Value)
    ensures
        json_of(r) == Json::no_members(),
{
    serde_json::Value::Object(serde_json::Map::new())
}

/// `IndexMut` of `serde_json::Value` with a string, assigned to: the member
/// with that key is put in, in place of one that was there.
#[verifier::external_body]
pub(crate) fn set_member(object: &mut serde_json::Value, key: &str, value: serde_json::Value)
    requires
        json_of(*old(object)) is Object,
    ensures
        json_of(*final(object)) == json_of(*old(object)).with(key@, json_of(value)),
{
    object[key] = value;
}

/// `serde_json::Value::from` of a string: a text.
#[verifier::external_body]
pub(crate) fn text(s: &str) -> (r: serde_json::Value)
    ensures
        json_of(r) == Json::Text(s@),
{
    serde_json::Value::from(s)
}

/// `serde_json::Value::from` of a truth value.
#[verifier::external_body]
pub(crate) fn boolean(b: bool) -> (r: serde_json::Value)
    ensures
        json_of(r) == Json::Bool(b),
{
    serde_json::Value::from(b)
}

/// `serde_json::Value::from` of a natural number.
#[verifier::external_body]
pub(crate) fn number(n: u64) -> (r: serde_json::Value)
    ensures
        json_of(r) == Json::Int(n as int),
{
    serde_json::Value::from(n)
}

/// `serde_json::Value::from` of a list of values: an array of them, in their order.
#[verifier::external_body]
pub(crate) fn array(values: Vec<serde_json::Value>) -> (r: serde_json::Value)
    ensures
        json_of(r) == Json::Array(jsons(values@)),
{
    serde_json::Value::from(values)
}

/// `to_string` of `serde_json::Value`: the compact text of the value. It has
/// the members of an object in the order of their keys, so it depends on
/// nothing but what the value holds.
#[verifier::external_body]
pub(crate) fn to_text(value: &serde_json::Value) -> (r: String)
    ensures
        r@ == json_text(json_of(*value)),
{
    value.to_string()
}

/// `serde_json::from_slice`, for a `serde_json::Value`: the value of the
/// document, if the bytes are one. What they must be for that is left to it.
#[verifier::external_body]
pub(crate) fn parse(bytes: &[u8]) -> (r: Option<serde_json::Value>)
    ensures
        match r {
            Some(v) => json_document(bytes@) == Some(json_of(v)),
            None => json_document(bytes@) is None,
        },
{
    serde_json::from_slice(bytes).ok()
}

/// `Index` of `serde_json::Value` with a string: the member of an object with
/// that key, and null where there is none or where the value is no object.
#[verifier::external_body]
pub(crate) fn member<'a>(value: &'a serde_json::Value, key: &str) -> (r: &'a serde_json::Value)
    ensures
        json_of(*r) == json_of(*value).member(key@),
{
    &value[key]
}

/// `serde_json::Value::as_str`: the text, if the value is one.
#[verifier::external_body]
pub(crate) fn as_text(value: &serde_json::Value) -> (r: Option<&str>)
    ensures
        match r {
            Some(s) => json_of(*value) == Json::Text(s@),
            None => !(json_of(*value) is Text),
        },
{
    value.as_str()
}

/// `serde_json::Value::as_i64`: the number, if the value is an integer of 64 bits.
#[verifier::external_body]
pub(crate) fn as_int(value: &serde_json::Value) -> (r: Option<i64>)
    ensures
        match r {
            Some(n) => json_of(*value) == Json::Int(n as int),
            None => json_of(*value) matches Json::Int(n) ==> n < i64::MIN || n > i64::MAX,
        },
{
    value.as_i64()
}

/// `serde_json::Value::as_array`: the elements, if the value is an array.
#[verifier::external_body]
pub(crate) fn as_array(value: &serde_json::Value) -> (r: Option<&Vec<serde_json::Value>>)
    ensures
        match r {
            Some(a) => json_of(*value) == Json::Array(jsons(a@)),
            None => !(json_of(*value) is Array),
        },
{
    value.as_array()
}

/// The text of a value, or the empty text where it is something else.
pub fn text_or_empty(value: &serde_json::Value) -> (r: String)
    ensures
        r@ == json_of(*value).text_or(seq![]),
{
    match as_text(value) {
        Some(s) => s.to_owned(),
        None => {
            let r = String::new();
            assert(r@ =~= seq![]);
            r
        },
    }
}

/// The number of a value, or 0 where it is no integer of 64 bits.
pub fn int_or_zero(value: &serde_json::Value) -> (r: i64)
    ensures
        r == json_of(*value).int_or(0),
{
    match as_int(value) {
        Some(n) => n,
        None => 0,
    }
}

/// A member that was put in is there, and others stay as they were.
pub proof fn law_members(object: Json, key: Seq<char>, value: Json, other: Seq<char>)
    requires
        object is Object,
    ensures
        object.with(key, value) is Object,
        object.with(key, value).member(key) == value,
        other != key ==> object.with(key, value).member(other) == object.member(other),
        Json::no_members().member(key) == Json::Null,
{
}

/// A text is read as it is and a number as it is; anything else is what is given
/// in its place.
pub proof fn law_values(t: Seq<char>, n: int, other: Json, text: Seq<char>, number: int)
    ensures
        Json::Text(t).text_or(text) == t,
        !(other is Text) ==> other.text_or(text) == text,
        i64::MIN <= n <= i64::MAX ==> Json::Int(n).int_or(number) == n,
        !(i64::MIN <= n <= i64::MAX) ==> Json::Int(n).int_or(number) == number,
        !(other is Int) ==> other.int_or(number) == number,
{
}

} // verus!

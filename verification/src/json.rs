//! The JSON documents of the exchange format.
//!
//! Reading and printing JSON text is the work of `serde_json`. A document is
//! held as a `serde_json::Value`, which the verifier cannot look into. What
//! such a value holds is described by [`JsonDoc`], and every function of this
//! module that touches a value states its effect over that description. None
//! of these statements is proved here: each one is read off the source of
//! `serde_json`, and the doc comment above it says what it claims.
//!
//! Two features of `serde_json` are switched on. With `preserve_order` the
//! members of an object keep the order in which they were put in, so a
//! molecule is printed with its members in the order of the format. With
//! `float_roundtrip` a decimal text is read as the double nearest to it.

use vstd::prelude::*;

verus! {

/// `serde_json::Value`: a JSON document, carried but not looked into.
#[verifier::external_type_specification]
#[verifier::external_body]
pub struct ExValue(serde_json::Value);

/// `serde_json::Error`: why the codec failed, carried but not looked into.
#[verifier::external_type_specification]
#[verifier::external_body]
pub struct ExError(serde_json::Error);

/// A JSON number, in one of the three forms in which the codec keeps it.
pub enum JsonNum {
    /// A non-negative integer.
    PosInt(u64),
    /// A negative integer.
    NegInt(i64),
    /// A finite double, by its IEEE-754 bit pattern.
    Float(u64),
}

/// What a JSON document holds. The members of an object stand in the order
/// in which they are printed.
pub enum JsonDoc {
    Null,
    Bool(bool),
    Number(JsonNum),
    Text(Seq<char>),
    Array(Seq<JsonDoc>),
    Object(Seq<(Seq<char>, JsonDoc)>),
}

/// The document that a value holds.
pub uninterp spec fn json_model(v: serde_json::Value) -> JsonDoc;

/// The document that a text is read as, if it is well-formed JSON.
pub uninterp spec fn json_parse(text: Seq<char>) -> Option<JsonDoc>;

/// The text that a document is printed as, if the codec prints it.
pub uninterp spec fn json_print(doc: JsonDoc) -> Option<Seq<char>>;

/// The double, by its bit pattern, that an integer number is read as where a
/// double is asked for: the integer rounded to the nearest double.
pub uninterp spec fn float_of_integer(n: JsonNum) -> u64;

/// The first member of that name among the members of an object.
pub open spec fn members_get(members: Seq<(Seq<char>, JsonDoc)>, key: Seq<char>) -> Option<JsonDoc>
    decreases members.len(),
{
    if members.len() == 0 {
        None
    } else if members[0].0 == key {
        Some(members[0].1)
    } else {
        members_get(members.drop_first(), key)
    }
}

impl JsonNum {
    /// The number as a double, by its bit pattern.
    pub open spec fn as_float(self) -> u64 {
        match self {
            JsonNum::Float(bits) => bits,
            _ => float_of_integer(self),
        }
    }
}

impl JsonDoc {
    /// The member of that name, where the document is an object that has one.
    pub open spec fn member(self, key: Seq<char>) -> Option<JsonDoc> {
        match self {
            JsonDoc::Object(members) => members_get(members, key),
            _ => None,
        }
    }

    /// The text, where the document is a string.
    pub open spec fn text(self) -> Option<Seq<char>> {
        match self {
            JsonDoc::Text(s) => Some(s),
            _ => None,
        }
    }

    /// The value, where the document is a non-negative integer.
    pub open spec fn uint(self) -> Option<u64> {
        match self {
            JsonDoc::Number(JsonNum::PosInt(n)) => Some(n),
            _ => None,
        }
    }

    /// The value as a double, where the document is a number of any form.
    pub open spec fn float(self) -> Option<u64> {
        match self {
            JsonDoc::Number(n) => Some(n.as_float()),
            _ => None,
        }
    }

    /// The items, where the document is an array.
    pub open spec fn items(self) -> Option<Seq<JsonDoc>> {
        match self {
            JsonDoc::Array(items) => Some(items),
            _ => None,
        }
    }
}

/// The documents that a sequence of values holds, item by item.
pub open spec fn models(values: Seq<serde_json::Value>) -> Seq<JsonDoc> {
    Seq::new(values.len(), |i: int| json_model(values[i]))
}

/// The members that a sequence of named values stands for, in its order.
pub open spec fn member_models(fields: Seq<(String, serde_json::Value)>) -> Seq<
    (Seq<char>, JsonDoc),
> {
    Seq::new(fields.len(), |i: int| (fields[i].0@, json_model(fields[i].1)))
}

/// Whether no name occurs twice in a sequence of named values.
pub open spec fn distinct_names(fields: Seq<(String, serde_json::Value)>) -> bool {
    forall|i: int, j: int| 0 <= i < j < fields.len() ==> fields[i].0@ != fields[j].0@
}

/// Reads a JSON text with `serde_json::from_str`, as a `Value`. Claimed: the
/// outcome depends on the text alone, so it has a name, [`json_parse`]; the
/// call fails exactly where that name gives no document.
#[verifier::external_body]
pub(crate) fn parse_value(text: &str) -> (r: Result<serde_json::Value, serde_json::Error>)
    ensures
        match r {
            Ok(v) => json_parse(text@) == Some(json_model(v)),
            Err(_) => json_parse(text@) is None,
        },
{
    serde_json::from_str::<serde_json::Value>(text)
}

/// Prints a value with `serde_json::to_string`. Claimed: the outcome depends
/// on the document alone, so it has a name, [`json_print`]; the call fails
/// exactly where that name gives no text. Nothing is claimed on which
/// documents are printed.
#[verifier::external_body]
pub(crate) fn print_value(v: &serde_json::Value) -> (r: Result<String, serde_json::Error>)
    ensures
        match r {
            Ok(text) => json_print(json_model(*v)) == Some(text@),
            Err(_) => json_print(json_model(*v)) is None,
        },
{
    serde_json::to_string(v)
}

/// `Value::get` with a name. Claimed: it gives the member of that name where
/// the value is an object that has one, and nothing otherwise.
#[verifier::external_body]
pub(crate) fn member<'a>(v: &'a serde_json::Value, key: &str) -> (r: Option<&'a serde_json::Value>)
    ensures
        match r {
            Some(m) => json_model(*v).member(key@) == Some(json_model(*m)),
            None => json_model(*v).member(key@) is None,
        },
{
    v.get(key)
}

/// `Value::as_str`. Claimed: it gives the text where the value is a string,
/// and nothing otherwise.
#[verifier::external_body]
pub(crate) fn as_text<'a>(v: &'a serde_json::Value) -> (r: Option<&'a str>)
    ensures
        match r {
            Some(s) => json_model(*v).text() == Some(s@),
            None => json_model(*v).text() is None,
        },
{
    v.as_str()
}

/// `Value::as_u64`. Claimed: it gives the value where the value is a
/// non-negative integer, and nothing otherwise.
#[verifier::external_body]
pub(crate) fn as_uint(v: &serde_json::Value) -> (r: Option<u64>)
    ensures
        r == json_model(*v).uint(),
{
    v.as_u64()
}

/// `Value::as_f64`, with the double handed back as its bit pattern. Claimed:
/// a number kept as a double gives that double; a number kept as an integer
/// gives what [`float_of_integer`] names; anything else gives nothing.
#[verifier::external_body]
pub(crate) fn as_float_bits(v: &serde_json::Value) -> (r: Option<u64>)
    ensures
        r == match json_model(*v) {
            JsonDoc::Number(JsonNum::Float(bits)) => Some(bits),
            JsonDoc::Number(n) => Some(float_of_integer(n)),
            _ => None,
        },
{
    v.as_f64().map(|x| x.to_bits())
}

/// `Value::is_f64`. Claimed: it holds exactly of a number kept as a double.
#[verifier::external_body]
pub(crate) fn is_float(v: &serde_json::Value) -> (r: bool)
    ensures
        r == (json_model(*v) matches JsonDoc::Number(JsonNum::Float(_))),
{
    v.is_f64()
}

/// `Value::as_array`. Claimed: it gives the items where the value is an
/// array, and nothing otherwise.
#[verifier::external_body]
pub(crate) fn as_items<'a>(v: &'a serde_json::Value) -> (r: Option<&'a Vec<serde_json::Value>>)
    ensures
        match r {
            Some(items) => json_model(*v).items() == Some(models(items@)),
            None => json_model(*v).items() is None,
        },
{
    v.as_array()
}

/// The value `Value::Null`.
#[verifier::external_body]
pub(crate) fn null_value() -> (v: serde_json::Value)
    ensures
        json_model(v) == JsonDoc::Null,
{
    serde_json::Value::Null
}

/// The value `Value::String` of a `String`: the string with that text.
#[verifier::external_body]
pub(crate) fn text_value(s: String) -> (v: serde_json::Value)
    ensures
        json_model(v) == JsonDoc::Text(s@),
{
    serde_json::Value::String(s)
}

/// `Value::from` on a `u64`: the number kept as that non-negative integer.
#[verifier::external_body]
pub(crate) fn uint_value(n: u64) -> (v: serde_json::Value)
    ensures
        json_model(v) == JsonDoc::Number(JsonNum::PosInt(n)),
{
    serde_json::Value::from(n)
}

/// The value `Value::Array` of a `Vec<Value>`: the array of those items, in
/// their order.
#[verifier::external_body]
pub(crate) fn array_value(items: Vec<serde_json::Value>) -> (v: serde_json::Value)
    ensures
        json_model(v) == JsonDoc::Array(models(items@)),
{
    serde_json::Value::Array(items)
}

/// `Value::Object` on the map that `Map::from_iter` collects. Claimed: where
/// no name occurs twice, the object has those members in that order.
#[verifier::external_body]
pub(crate) fn object_value(fields: Vec<(String, serde_json::Value)>) -> (v: serde_json::Value)
    requires
        distinct_names(fields@),
    ensures
        json_model(v) == JsonDoc::Object(member_models(fields@)),
{
    serde_json::Value::Object(serde_json::Map::from_iter(fields))
}

} // verus!

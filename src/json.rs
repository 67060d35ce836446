use vstd::prelude::*;

verus! {

/// A JSON document as the query language reads it. Integers are held exactly;
/// any other number is held as the decimal text it was written with. An object
/// keeps its entries in the order they were written.
pub enum JsonValue {
    Null,
    Bool(bool),
    Number(i128),
    Decimal(String),
    Str(String),
    Array(Vec<JsonValue>),
    Object(Vec<(String, JsonValue)>),
}

/// The mathematical form of a [`JsonValue`].
pub enum Json {
    Null,
    Bool(bool),
    Number(int),
    Decimal(Seq<char>),
    Str(Seq<char>),
    Array(Seq<Json>),
    Object(Seq<(Seq<char>, Json)>),
}

pub open spec fn items_view(v: Vec<JsonValue>) -> Seq<Json>
    decreases v,
{
    Seq::new(v.len() as nat, |i: int| if 0 <= i < v.len() { json_of(v[i]) } else { Json::Null })
}

pub open spec fn entries_view(v: Vec<(String, JsonValue)>) -> Seq<(Seq<char>, Json)>
    decreases v,
{
    Seq::new(
        v.len() as nat,
        |i: int| if 0 <= i < v.len() { (v[i].0@, json_of(v[i].1)) } else { (Seq::empty(), Json::Null) },
    )
}

pub open spec fn json_of(j: JsonValue) -> Json
    decreases j,
{
    match j {
        JsonValue::Null => Json::Null,
        JsonValue::Bool(b) => Json::Bool(b),
        JsonValue::Number(n) => Json::Number(n as int),
        JsonValue::Decimal(s) => Json::Decimal(s@),
        JsonValue::Str(s) => Json::Str(s@),
        JsonValue::Array(v) => Json::Array(items_view(v)),
        JsonValue::Object(v) => Json::Object(entries_view(v)),
    }
}

impl View for JsonValue {
    type V = Json;

    open spec fn view(&self) -> Json {
        json_of(*self)
    }
}

} // verus!

//! JSON values as the chat template reads them, and the calls that parse and
//! write JSON text.

use vstd::prelude::*;
use vstd::string::*;

verus! {

/// A JSON value. Numbers are kept as they are written: whole numbers, and doubles by the shortest
/// text that stands for them.
#[derive(Debug)]
pub enum Json {
    Null,
    Bool(bool),
    Number(String),
    Double(String),
    Str(String),
    Array(Vec<Json>),
    Object(Vec<Field>),
}

/// A member of a JSON object.
#[derive(Debug)]
pub struct Field {
    pub key: String,
    pub value: Json,
}

/// A JSON value as a mathematical value.
pub ghost enum JsonV {
    Null,
    Bool(bool),
    Number(Seq<char>),
    Double(Seq<char>),
    Str(Seq<char>),
    Array(Seq<JsonV>),
    Object(Seq<FieldV>),
}

/// A member of a JSON object as a mathematical value.
pub ghost struct FieldV {
    pub key: Seq<char>,
    pub value: JsonV,
}

/// The value of a JSON value.
pub open spec fn json_view(j: Json) -> JsonV
    decreases j,
{
    match j {
        Json::Null => JsonV::Null,
        Json::Bool(b) => JsonV::Bool(b),
        Json::Number(t) => JsonV::Number(t@),
        Json::Double(t) => JsonV::Double(t@),
        Json::Str(s) => JsonV::Str(s@),
        Json::Array(items) => JsonV::Array(items_view(items@)),
        Json::Object(fields) => JsonV::Object(fields_view(fields@)),
    }
}

/// The values of the items of an array.
pub open spec fn items_view(items: Seq<Json>) -> Seq<JsonV>
    decreases items,
{
    Seq::new(
        items.len(),
        |i: int| if 0 <= i < items.len() { json_view(items[i]) } else { arbitrary() },
    )
}

/// The value of a member.
pub open spec fn field_view(f: Field) -> FieldV
    decreases f,
{
    FieldV { key: f.key@, value: json_view(f.value) }
}

/// The values of the members of an object.
pub open spec fn fields_view(fields: Seq<Field>) -> Seq<FieldV>
    decreases fields,
{
    Seq::new(
        fields.len(),
        |i: int| if 0 <= i < fields.len() { field_view(fields[i]) } else { arbitrary() },
    )
}

impl View for Json {
    type V = JsonV;

    open spec fn view(&self) -> JsonV {
        json_view(*self)
    }
}

/// The first member with this key.
pub open spec fn field_of(fields: Seq<FieldV>, key: Seq<char>) -> Option<JsonV>
    decreases fields.len(),
{
    if fields.len() == 0 {
        None
    } else if fields[0].key == key {
        Some(fields[0].value)
    } else {
        field_of(fields.skip(1), key)
    }
}

/// The members with the one of this key replaced, or added at the end.
pub open spec fn with_field(fields: Seq<FieldV>, key: Seq<char>, value: JsonV) -> Seq<FieldV>
    decreases fields.len(),
{
    if fields.len() == 0 {
        seq![FieldV { key, value }]
    } else if fields[0].key == key {
        seq![FieldV { key, value }] + fields.skip(1)
    } else {
        seq![fields[0]] + with_field(fields.skip(1), key, value)
    }
}

/// A JSON value of the serde_json crate.
#[verifier::external_type_specification]
#[verifier::external_body]
pub struct ExValue(serde_json::Value);

/// The value that a JSON text stands for, as `serde_json::from_str` reads it; none if it is
/// malformed. The members of an object are in the order of the crate's map.
pub uninterp spec fn json_read(text: Seq<char>) -> Option<JsonV>;

/// The compact text of a JSON value, as serde_json writes it. Of members with equal keys the
/// last one counts.
pub uninterp spec fn json_written(value: JsonV) -> Seq<char>;

/// The number that a text gives as a double, as serde_json writes it; none if the text is not a
/// finite number.
pub uninterp spec fn double_written(text: Seq<char>) -> Option<Seq<char>>;

/// Changes a value of serde_json into one of this module, case by case.
#[verifier::external_body]
fn from_value(v: &serde_json::Value) -> (r: Json) {
    match v {
        serde_json::Value::Null => Json::Null,
        serde_json::Value::Bool(b) => Json::Bool(*b),
        serde_json::Value::Number(n) if n.is_f64() => Json::Double(n.to_string()),
        serde_json::Value::Number(n) => Json::Number(n.to_string()),
        serde_json::Value::String(s) => Json::Str(s.clone()),
        serde_json::Value::Array(a) => Json::Array(a.iter().map(from_value).collect()),
        serde_json::Value::Object(m) => Json::Object(
            m.iter().map(|(k, v)| Field { key: k.clone(), value: from_value(v) }).collect(),
        ),
    }
}

/// Changes a value of this module into one of serde_json, case by case. A number whose text is
/// not one becomes null. Doubles are read by `str::parse`, which is exact.
#[verifier::external_body]
fn to_value(j: &Json) -> (r: serde_json::Value) {
    match j {
        Json::Null => serde_json::Value::Null,
        Json::Bool(b) => serde_json::Value::Bool(*b),
        Json::Number(t) => t.parse().map_or(serde_json::Value::Null, serde_json::Value::Number),
        Json::Double(t) => t.parse().ok().and_then(serde_json::Number::from_f64).map_or(
            serde_json::Value::Null,
            serde_json::Value::Number,
        ),
        Json::Str(s) => serde_json::Value::String(s.clone()),
        Json::Array(a) => serde_json::Value::Array(a.iter().map(to_value).collect()),
        Json::Object(m) => serde_json::Value::Object(
            m.iter().map(|f| (f.key.clone(), to_value(&f.value))).collect(),
        ),
    }
}

/// Whether a string stands between quotes as it is: it holds no quotes, backslashes and control
/// characters.
pub open spec fn is_plain(s: Seq<char>) -> bool {
    forall|i: int|
        0 <= i < s.len() ==> #[trigger] s[i] != '"' && s[i] != '\\' && s[i] >= ' '
}

/// The string between the quotes of a text, if it needs no escapes.
pub open spec fn plain_string(text: Seq<char>) -> Option<Seq<char>> {
    let n = text.len();
    if n >= 2 && text[0] == '"' && text[n - 1] == '"' && is_plain(text.subrange(1, n - 1)) {
        Some(text.subrange(1, n - 1))
    } else {
        None
    }
}

/// `serde_json::from_str`: the value of a JSON text is a function of the text. A string that needs
/// no escapes is read as what stands between its quotes.
#[verifier::external_body]
pub(crate) fn parse_json(text: &str) -> (r: Option<Json>)
    ensures
        match r {
            Some(j) => json_read(text@) == Some(j@) && (plain_string(text@) is Some ==> j@
                == JsonV::Str(plain_string(text@)->0)),
            None => json_read(text@) is None && plain_string(text@) is None,
        },
{
    serde_json::from_str::<serde_json::Value>(text).ok().as_ref().map(from_value)
}

/// `serde_json::Value`'s compact text is a function of the value.
#[verifier::external_body]
pub(crate) fn write_json(j: &Json) -> (r: String)
    ensures
        r@ == json_written(j@),
{
    to_value(j).to_string()
}

/// `str::parse` into a double and `serde_json::Number::from_f64`: the written number is a
/// function of the text.
#[verifier::external_body]
pub(crate) fn write_double(text: &str) -> (r: Option<String>)
    ensures
        match r {
            Some(t) => double_written(text@) == Some(t@),
            None => double_written(text@) is None,
        },
{
    text.parse().ok().and_then(serde_json::Number::from_f64).map(|n| n.to_string())
}

/// Reads a JSON text.
pub fn read_json(text: &str) -> (r: Option<Json>)
    ensures
        match r {
            Some(j) => json_read(text@) == Some(j@),
            None => json_read(text@) is None,
        },
{
    parse_json(text)
}

} // verus!

//! The JSON values this library stores in documents.
//!
//! JSON numbers that fit a signed 64-bit integer are kept as integers; any
//! other JSON number is kept as its decimal text, so no floating point runs
//! through verified code. Parsing JSON text is delegated to serde_json
//! behind a trusted wrapper; everything downstream works on the parsed
//! value structurally.

use vstd::prelude::*;

verus! {

/// A JSON value in this library's representation.
pub enum JsonValue {
    Null,
    Bool(bool),
    /// A JSON number that fits an `i64`.
    Int(i64),
    /// Any other JSON number, kept as its decimal text.
    Num(String),
    Str(String),
    Arr(Vec<JsonValue>),
    Obj(Vec<(String, JsonValue)>),
}

/// A document: an ordered mapping from field name to JSON value. The
/// primary-key field's value, stringified, is the external identifier used
/// for upsert and delete.
pub type Document = Vec<(String, JsonValue)>;

/// What `serde_json` parses the given text to, in this library's
/// representation; `None` when the text is not valid JSON. The result is a
/// function of the characters alone.
pub uninterp spec fn json_parse(s: Seq<char>) -> Option<JsonValue>;

#[verifier::external_type_specification]
#[verifier::external_body]
pub struct ExSerdeValue(serde_json::Value);

/// Relies on serde_json::from_str: whether a string is valid JSON, and what
/// it parses to, depend on the characters alone.
#[verifier::external_body]
pub(crate) fn parse_json_text(s: &str) -> (r: Option<JsonValue>)
    ensures
        r == json_parse(s@),
{
    match serde_json::from_str::<serde_json::Value>(s) {
        Ok(v) => Some(from_parsed(v)),
        Err(_) => None,
    }
}

/// The conversion half of `parse_json_text`: re-expresses a parsed
/// serde_json value in this library's representation, one variant to one
/// variant. Only `parse_json_text` calls it, and its effect is covered by
/// that function's contract on `json_parse`.
#[verifier::external_body]
fn from_parsed(v: serde_json::Value) -> JsonValue {
    match v {
        serde_json::Value::Null => JsonValue::Null,
        serde_json::Value::Bool(b) => JsonValue::Bool(b),
        serde_json::Value::Number(n) => match n.as_i64() {
            Some(i) => JsonValue::Int(i),
            None => JsonValue::Num(n.to_string()),
        },
        serde_json::Value::String(s) => JsonValue::Str(s),
        serde_json::Value::Array(a) => JsonValue::Arr(a.into_iter().map(from_parsed).collect()),
        serde_json::Value::Object(m) => JsonValue::Obj(
            m.into_iter().map(|e| (e.0, from_parsed(e.1))).collect(),
        ),
    }
}

/// The decimal digits of `n`, most significant first.
pub open spec fn spec_nat_digits(n: nat) -> Seq<char>
    decreases n,
{
    if n < 10 {
        seq![((48 + n) as u8) as char]
    } else {
        spec_nat_digits(n / 10).push(((48 + n % 10) as u8) as char)
    }
}

/// The decimal rendering of `v`: its digits, with a leading '-' when
/// negative.
pub open spec fn spec_i64_digits(v: int) -> Seq<char> {
    if v < 0 {
        seq!['-'] + spec_nat_digits((-v) as nat)
    } else {
        spec_nat_digits(v as nat)
    }
}

/// Relies on i64's Display implementation: the decimal digits of the value,
/// with a leading '-' for negatives.
#[verifier::external_body]
pub(crate) fn i64_to_string(v: i64) -> (r: String)
    ensures
        r@ == spec_i64_digits(v as int),
{
    v.to_string()
}

} // verus!

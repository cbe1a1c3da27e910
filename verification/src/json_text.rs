use crate::json_value::{Jv, JsonValue};
use std::str::FromStr;
use vstd::prelude::*;

verus! {

#[verifier::external_type_specification]
#[verifier::external_body]
pub struct ExSerdeValue(serde_json::Value);

/// What parsing a frame yields: `None` when the text is not JSON, otherwise
/// the document it denotes, with whole numbers that fit a signed 64-bit
/// integer read as integers and every other number carried as the text
/// serde_json renders for it (normalized through its binary representation,
/// so for instance an exponent form comes back in decimal).  The result
/// depends on the characters alone.
pub uninterp spec fn json_text_parsed(s: Seq<char>) -> Option<Jv>;

/// The one line of text that a JSON document renders to.  The result depends
/// on the document alone.
pub uninterp spec fn json_text_of(v: Jv) -> Seq<char>;

/// Whether serde_json accepts this text as a numeric literal: only such text
/// can stand for a number on the wire.  The result depends on the characters
/// alone.
pub uninterp spec fn json_number_text(s: Seq<char>) -> bool;

/// Relies on serde_json's `Number::from_str`: whether it accepts a numeric
/// literal depends on the characters alone.
#[verifier::external_body]
pub(crate) fn check_number_text(s: &str) -> (r: bool)
    ensures
        r == json_number_text(s@),
{
    serde_json::Number::from_str(s).is_ok()
}

/// Relies on `serde_json::Value`: translates a parsed document into this
/// crate's JSON representation, arm by arm.  Whole numbers representable as
/// `i64` (as `Number::as_i64` decides) become integers; any other number
/// keeps its textual form; object fields keep the parser's (sorted) order.
#[verifier::external_body]
fn json_of_serde(v: serde_json::Value) -> JsonValue {
    match v {
        serde_json::Value::Null => JsonValue::Null,
        serde_json::Value::Bool(b) => JsonValue::Bool(b),
        serde_json::Value::Number(n) => match n.as_i64() {
            Some(i) => JsonValue::Int(i),
            None => JsonValue::Num(n.to_string()),
        },
        serde_json::Value::String(s) => JsonValue::Str(s),
        serde_json::Value::Array(a) => JsonValue::Arr(
            a.into_iter().map(json_of_serde).collect(),
        ),
        serde_json::Value::Object(m) => JsonValue::Obj(
            m.into_iter().map(|(k, x)| (k, json_of_serde(x))).collect(),
        ),
    }
}

/// Relies on `serde_json::Value` and `Number::from_str`: translates this
/// crate's JSON representation back, arm by arm.  A numeric literal that
/// `Number::from_str` refuses is rendered as `null`; the crate's own encoders
/// never produce one.
#[verifier::external_body]
fn serde_of_json(v: &JsonValue) -> serde_json::Value {
    match v {
        JsonValue::Null => serde_json::Value::Null,
        JsonValue::Bool(b) => serde_json::Value::Bool(*b),
        JsonValue::Int(i) => serde_json::Value::from(*i),
        JsonValue::Num(s) => match serde_json::Number::from_str(s) {
            Ok(n) => serde_json::Value::Number(n),
            Err(_) => serde_json::Value::Null,
        },
        JsonValue::Str(s) => serde_json::Value::String(s.clone()),
        JsonValue::Arr(a) => serde_json::Value::Array(a.iter().map(serde_of_json).collect()),
        JsonValue::Obj(o) => serde_json::Value::Object(
            o.iter().map(|(k, x)| (k.clone(), serde_of_json(x))).collect(),
        ),
    }
}

/// Relies on `serde_json::from_str::<serde_json::Value>`: whether the text
/// parses, and the document it denotes, depend on the text alone.
#[verifier::external_body]
pub(crate) fn parse_json_text(s: &str) -> (r: Option<JsonValue>)
    ensures
        match r {
            Some(v) => json_text_parsed(s@) == Some(v@),
            None => json_text_parsed(s@) is None,
        },
{
    match serde_json::from_str::<serde_json::Value>(s) {
        Ok(v) => Some(json_of_serde(v)),
        Err(_) => None,
    }
}

/// Relies on `serde_json::Value`'s `to_string`: the compact rendering of a
/// document depends on the document alone.
#[verifier::external_body]
pub(crate) fn render_json_text(v: &JsonValue) -> (r: String)
    ensures
        r@ == json_text_of(v@),
{
    serde_of_json(v).to_string()
}

} // verus!

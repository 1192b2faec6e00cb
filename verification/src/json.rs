//! A plain JSON document model, and the tolerant field decoders shared by
//! all exchange normalizers.
//!
//! Parsing bytes into the model is delegated to `serde_json` through a
//! trusted wrapper; every decision made on the parsed document — field
//! lookup, number-or-string tolerance, null handling — is verified here.

use vstd::prelude::*;

use crate::decimal::{dec_of_str, dec_from_str, Dec};
use crate::text::{i64_string_value, parse_i64, str_eq, trim, trim_of};

verus! {

/// A parsed JSON document. Numbers keep their literal text so that no
/// precision is lost before decimal parsing; object fields are listed in
/// the deterministic order the parser hands them out.
#[derive(Debug)]
pub enum Json {
    Null,
    Bool(bool),
    Num(String),
    Str(String),
    Arr(Vec<Json>),
    Obj(Vec<(String, Json)>),
}

/// The document `serde_json` parses out of a byte string, if any; a
/// function of the bytes alone.
pub uninterp spec fn json_of(bytes: Seq<u8>) -> Option<Json>;

/// The `serde_json` document type, opaque to the verifier; values of it
/// only pass from the parser into `json_of_value`.
#[verifier::external_type_specification]
#[verifier::external_body]
pub struct ExJsonValue(serde_json::Value);

/// Relies on the public shape of `serde_json::Value`: each variant is
/// mapped across, a number to its literal text (the `arbitrary_precision`
/// representation), an object to its fields in `serde_json::Map`'s
/// deterministic iteration order.
#[verifier::external_body]
fn json_of_value(v: serde_json::Value) -> Json {
    match v {
        serde_json::Value::Null => Json::Null,
        serde_json::Value::Bool(b) => Json::Bool(b),
        serde_json::Value::Number(n) => Json::Num(n.to_string()),
        serde_json::Value::String(s) => Json::Str(s),
        serde_json::Value::Array(a) => Json::Arr(a.into_iter().map(json_of_value).collect()),
        serde_json::Value::Object(m) => {
            Json::Obj(m.into_iter().map(|(k, x)| (k, json_of_value(x))).collect())
        },
    }
}

/// Relies on `serde_json::from_slice::<Value>`: a deterministic parser
/// that returns a document exactly when the bytes are well-formed JSON.
#[verifier::external_body]
pub fn json_parse(bytes: &[u8]) -> (r: Option<Json>)
    ensures
        r == json_of(bytes@),
{
    match serde_json::from_slice::<serde_json::Value>(bytes) {
        Ok(v) => Some(json_of_value(v)),
        Err(_) => None,
    }
}

/// The first field of `fields` named `key`, searching from index `i` on.
pub open spec fn lookup_from(fields: Seq<(String, Json)>, key: Seq<char>, i: int) -> Option<Json>
    decreases fields.len() - i,
{
    if i < 0 || i >= fields.len() {
        None
    } else if fields[i].0@ == key {
        Some(fields[i].1)
    } else {
        lookup_from(fields, key, i + 1)
    }
}

/// The value of the field named `key`, when the document is an object
/// holding one.
pub open spec fn json_get_spec(j: Json, key: Seq<char>) -> Option<Json> {
    match j {
        Json::Obj(fields) => lookup_from(fields@, key, 0),
        _ => None,
    }
}

impl Json {
    /// Look up a field by name; `None` when this is not an object or no
    /// field carries the name.
    pub fn get<'a>(&'a self, key: &str) -> (r: Option<&'a Json>)
        ensures
            match r {
                Some(j) => json_get_spec(*self, key@) == Some(*j),
                None => json_get_spec(*self, key@) is None,
            },
    {
        match self {
            Json::Obj(fields) => {
                let n = fields.len();
                let mut i: usize = 0;
                while i < n
                    invariant
                        0 <= i <= n,
                        n == fields@.len(),
                        self is Obj,
                        self->Obj_0 == *fields,
                        lookup_from(fields@, key@, 0) == lookup_from(fields@, key@, i as int),
                    decreases n - i,
                {
                    let pair = &fields[i];
                    if str_eq(pair.0.as_str(), key) {
                        assert(pair.0@ == key@);
                        assert(fields@[i as int].0@ == key@);
                        assert(lookup_from(fields@, key@, i as int) == Some(fields@[i as int].1));
                        return Some(&pair.1);
                    }
                    i += 1;
                }
                None
            },
            _ => None,
        }
    }
}

/// A required decimal field, tolerant of number or numeric-string
/// encodings; anything else fails to decode.
pub open spec fn spec_de_decimal(j: Json) -> Option<Dec> {
    match j {
        Json::Num(s) => dec_of_str(s@),
        Json::Str(s) => dec_of_str(s@),
        _ => None,
    }
}

/// Decode a required decimal field encoded as either a JSON number or a
/// numeric string.
pub fn de_decimal(j: &Json) -> (r: Option<Dec>)
    ensures
        r == spec_de_decimal(*j),
        r matches Some(d) ==> d.wf(),
{
    match j {
        Json::Num(s) => dec_from_str(s.as_str()),
        Json::Str(s) => dec_from_str(s.as_str()),
        _ => None,
    }
}

/// An optional decimal field: null and blank strings mean "absent"
/// (`Some(None)`), an undecodable value is an error (`None`).
pub open spec fn spec_de_opt_decimal(j: Json) -> Option<Option<Dec>> {
    match j {
        Json::Null => Some(None),
        Json::Num(s) => match dec_of_str(s@) {
            Some(d) => Some(Some(d)),
            None => None,
        },
        Json::Str(s) => {
            let t = trim_of(s@);
            if t.len() == 0 {
                Some(None)
            } else {
                match dec_of_str(t) {
                    Some(d) => Some(Some(d)),
                    None => None,
                }
            }
        },
        _ => None,
    }
}

/// Decode an optional decimal field, treating null and blank strings as
/// absent rather than as errors, and never defaulting to zero.
pub fn de_opt_decimal(j: &Json) -> (r: Option<Option<Dec>>)
    ensures
        r == spec_de_opt_decimal(*j),
        r matches Some(Some(d)) ==> d.wf(),
{
    match j {
        Json::Null => Some(None),
        Json::Num(s) => match dec_from_str(s.as_str()) {
            Some(d) => Some(Some(d)),
            None => None,
        },
        Json::Str(s) => {
            let t = trim(s.as_str());
            if t.is_empty() {
                Some(None)
            } else {
                match dec_from_str(t) {
                    Some(d) => Some(Some(d)),
                    None => None,
                }
            }
        },
        _ => None,
    }
}

/// A millisecond timestamp, tolerant of integer or numeric-string
/// encodings.
pub open spec fn spec_de_ms_i64(j: Json) -> Option<i64> {
    match j {
        Json::Num(s) => i64_string_value(s@),
        Json::Str(s) => i64_string_value(s@),
        _ => None,
    }
}

/// Decode a millisecond timestamp encoded as either a JSON integer or a
/// numeric string.
pub fn de_ms_i64(j: &Json) -> (r: Option<i64>)
    ensures
        r == spec_de_ms_i64(*j),
{
    match j {
        Json::Num(s) => parse_i64(s.as_str()),
        Json::Str(s) => parse_i64(s.as_str()),
        _ => None,
    }
}

/// Row-by-row decoding of a JSON array: every element must decode, or the
/// whole array fails, as a schema-directed decoder would abort.
pub open spec fn decode_all<T>(rows: Seq<Json>, f: spec_fn(Json) -> Option<T>) -> Option<Seq<T>>
    decreases rows.len(),
{
    if rows.len() == 0 {
        Some(Seq::empty())
    } else {
        match (decode_all(rows.drop_last(), f), f(rows.last())) {
            (Some(init), Some(t)) => Some(init.push(t)),
            _ => None,
        }
    }
}

/// One undecodable element makes the whole array undecodable.
pub proof fn lemma_decode_all_fail<T>(rows: Seq<Json>, f: spec_fn(Json) -> Option<T>, i: int)
    requires
        0 <= i < rows.len(),
        f(rows[i]) is None,
    ensures
        decode_all(rows, f) is None,
    decreases rows.len(),
{
    if i < rows.len() - 1 {
        assert(rows.drop_last()[i] == rows[i]);
        lemma_decode_all_fail(rows.drop_last(), f, i);
    }
}

/// A strict integer field: only a JSON integer is accepted, not a string.
pub open spec fn spec_de_i64_strict(j: Json) -> Option<i64> {
    match j {
        Json::Num(s) => i64_string_value(s@),
        _ => None,
    }
}

/// Decode an integer field that must be a JSON number.
pub fn de_i64_strict(j: &Json) -> (r: Option<i64>)
    ensures
        r == spec_de_i64_strict(*j),
{
    match j {
        Json::Num(s) => parse_i64(s.as_str()),
        _ => None,
    }
}

/// A required string field of an object.
pub open spec fn spec_str_field(j: Json, key: Seq<char>) -> Option<Seq<char>> {
    match json_get_spec(j, key) {
        Some(Json::Str(s)) => Some(s@),
        _ => None,
    }
}

/// Read a required string field; any other encoding, or a missing field,
/// fails to decode.
pub fn get_str_field(j: &Json, key: &str) -> (r: Option<String>)
    ensures
        match r {
            Some(s) => spec_str_field(*j, key@) == Some(s@),
            None => spec_str_field(*j, key@) is None,
        },
{
    match j.get(key) {
        Some(Json::Str(s)) => Some(s.clone()),
        _ => None,
    }
}

/// An optional string field: absent fields and null both mean `None`; a
/// value of any other type is an error.
pub open spec fn spec_opt_str_field(j: Json, key: Seq<char>) -> Option<Option<Seq<char>>> {
    match json_get_spec(j, key) {
        None => Some(None),
        Some(Json::Null) => Some(None),
        Some(Json::Str(s)) => Some(Some(s@)),
        Some(_) => None,
    }
}

/// Read an optional string field, treating a missing field or null as
/// absent.
pub fn get_opt_str_field(j: &Json, key: &str) -> (r: Option<Option<String>>)
    ensures
        match r {
            Some(Some(s)) => spec_opt_str_field(*j, key@) == Some(Some(s@)),
            Some(None) => spec_opt_str_field(*j, key@) == Some(None::<Seq<char>>),
            None => spec_opt_str_field(*j, key@) is None,
        },
{
    match j.get(key) {
        None => Some(None),
        Some(Json::Null) => Some(None),
        Some(Json::Str(s)) => Some(Some(s.clone())),
        Some(_) => None,
    }
}

/// A required boolean field of an object.
pub open spec fn spec_bool_field(j: Json, key: Seq<char>) -> Option<bool> {
    match json_get_spec(j, key) {
        Some(Json::Bool(b)) => Some(b),
        _ => None,
    }
}

/// Read a required boolean field.
pub fn get_bool_field(j: &Json, key: &str) -> (r: Option<bool>)
    ensures
        r == spec_bool_field(*j, key@),
{
    match j.get(key) {
        Some(Json::Bool(b)) => Some(*b),
        _ => None,
    }
}

/// An optional decimal field that may also be missing entirely: a missing
/// field, null, or a blank string all mean "absent".
pub open spec fn spec_opt_dec_field(j: Json, key: Seq<char>) -> Option<Option<Dec>> {
    match json_get_spec(j, key) {
        None => Some(None),
        Some(v) => spec_de_opt_decimal(v),
    }
}

/// Read an optional decimal field, treating a missing field as absent.
pub fn get_opt_dec_field(j: &Json, key: &str) -> (r: Option<Option<Dec>>)
    ensures
        r == spec_opt_dec_field(*j, key@),
        r matches Some(Some(d)) ==> d.wf(),
{
    match j.get(key) {
        None => Some(None),
        Some(v) => de_opt_decimal(v),
    }
}

/// A decimal field accepted only in string encoding, as some exchange
/// schemas require.
pub open spec fn spec_de_decimal_str(j: Json) -> Option<Dec> {
    match j {
        Json::Str(s) => dec_of_str(s@),
        _ => None,
    }
}

/// Decode a decimal field that must be a JSON string.
pub fn de_decimal_str(j: &Json) -> (r: Option<Dec>)
    ensures
        r == spec_de_decimal_str(*j),
        r matches Some(d) ==> d.wf(),
{
    match j {
        Json::Str(s) => dec_from_str(s.as_str()),
        _ => None,
    }
}

/// A required decimal field that must be string-encoded.
pub open spec fn spec_dec_str_field(j: Json, key: Seq<char>) -> Option<Dec> {
    match json_get_spec(j, key) {
        Some(v) => spec_de_decimal_str(v),
        None => None,
    }
}

/// Read a required string-encoded decimal field.
pub fn get_dec_str_field(j: &Json, key: &str) -> (r: Option<Dec>)
    ensures
        r == spec_dec_str_field(*j, key@),
        r matches Some(d) ==> d.wf(),
{
    match j.get(key) {
        Some(v) => de_decimal_str(v),
        None => None,
    }
}

} // verus!

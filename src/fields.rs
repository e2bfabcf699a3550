//! Readers of single fields of a stored document's `fields` object. A field
//! that is absent or of another type reads as absent; callers choose the
//! default.
use vstd::prelude::*;
use crate::json::{Json, JsonModel, member};
use crate::decimal::{parse_i64, parse_i64_text};
use crate::query::opt_member;
use crate::time::{Timestamp, rfc3339_instant, parse_timestamp_text};

verus! {

/// Why a document could not be read.
#[derive(Debug, PartialEq)]
pub enum DecodeError {
    /// The document has no `fields` object.
    MissingFields,
    /// A required field is absent or not of its type; its name is kept.
    MissingField(String),
}

/// The payload of field `key` tagged `tag`.
pub open spec fn tagged_field(fields: JsonModel, key: Seq<char>, tag: Seq<char>) -> Option<JsonModel> {
    opt_member(member(fields, key), tag)
}

/// The text of string field `key`.
pub open spec fn string_field(fields: JsonModel, key: Seq<char>) -> Option<Seq<char>> {
    match tagged_field(fields, key, "stringValue"@) {
        Some(JsonModel::Str(s)) => Some(s),
        _ => None,
    }
}

/// The value of boolean field `key`.
pub open spec fn bool_field(fields: JsonModel, key: Seq<char>) -> Option<bool> {
    match tagged_field(fields, key, "booleanValue"@) {
        Some(JsonModel::Bool(b)) => Some(b),
        _ => None,
    }
}

/// The value of integer field `key`, when it fits 32 bits.
pub open spec fn int_field(fields: JsonModel, key: Seq<char>) -> Option<i32> {
    match tagged_field(fields, key, "integerValue"@) {
        Some(JsonModel::Str(s)) => match parse_i64_text(s) {
            Some(n) => if i32::MIN <= n <= i32::MAX {
                Some(n as i32)
            } else {
                None
            },
            None => None,
        },
        _ => None,
    }
}

/// The instant of timestamp field `key`.
pub open spec fn timestamp_field(fields: JsonModel, key: Seq<char>) -> Option<Timestamp> {
    match tagged_field(fields, key, "timestampValue"@) {
        Some(JsonModel::Str(s)) => match rfc3339_instant(s) {
            Some(p) => Some(Timestamp { secs: p.0, nanos: p.1 }),
            None => None,
        },
        _ => None,
    }
}

/// The string items of array field `key`; items of other types are skipped.
pub open spec fn string_items(fields: JsonModel, key: Seq<char>) -> Seq<Seq<char>> {
    match opt_member(tagged_field(fields, key, "arrayValue"@), "values"@) {
        Some(JsonModel::Arr(xs)) => strings_among(xs),
        _ => Seq::empty(),
    }
}

/// The texts of the string values among `xs`, in order.
pub open spec fn strings_among(xs: Seq<JsonModel>) -> Seq<Seq<char>>
    decreases xs.len(),
{
    if xs.len() == 0 {
        Seq::empty()
    } else {
        let rest = strings_among(xs.drop_last());
        match member(xs.last(), "stringValue"@) {
            Some(JsonModel::Str(s)) => rest.push(s),
            _ => rest,
        }
    }
}

/// The content of an optional string.
pub open spec fn opt_text(o: Option<String>) -> Option<Seq<char>> {
    match o {
        Some(s) => Some(s@),
        None => None,
    }
}

fn tagged_payload<'a>(fields: &'a Json, key: &str, tag: &str) -> (r: Option<&'a Json>)
    ensures
        crate::json::opt_model(r) == tagged_field(fields@, key@, tag@),
{
    match fields.get(key) {
        Some(v) => v.get(tag),
        None => None,
    }
}

/// The text of string field `key`.
pub fn parse_string(fields: &Json, key: &str) -> (r: Option<String>)
    ensures
        opt_text(r) == string_field(fields@, key@),
{
    match tagged_payload(fields, key, "stringValue") {
        Some(v) => match v.as_str() {
            Some(s) => Some(String::from_str(s)),
            None => None,
        },
        None => None,
    }
}

/// The value of boolean field `key`; an error naming the field where it is
/// absent or not a boolean.
pub fn parse_bool(fields: &Json, key: &str) -> (r: Result<bool, DecodeError>)
    ensures
        match bool_field(fields@, key@) {
            Some(b) => r == Ok::<bool, DecodeError>(b),
            None => r is Err && r->Err_0 is MissingField && r->Err_0->MissingField_0@ == key@,
        },
{
    match tagged_payload(fields, key, "booleanValue") {
        Some(Json::Bool(b)) => Ok(*b),
        _ => Err(DecodeError::MissingField(String::from_str(key))),
    }
}

/// The value of integer field `key`, when it fits 32 bits.
pub fn parse_int(fields: &Json, key: &str) -> (r: Option<i32>)
    ensures
        r == int_field(fields@, key@),
{
    match tagged_payload(fields, key, "integerValue") {
        Some(v) => match v.as_str() {
            Some(s) => match parse_i64(s) {
                Some(n) => if -2147483648 <= n && n <= 2147483647 {
                    Some(n as i32)
                } else {
                    None
                },
                None => None,
            },
            None => None,
        },
        None => None,
    }
}

/// The instant of timestamp field `key`, if it is present and readable.
pub fn parse_timestamp_optional(fields: &Json, key: &str) -> (r: Option<Timestamp>)
    ensures
        r == timestamp_field(fields@, key@),
{
    match tagged_payload(fields, key, "timestampValue") {
        Some(v) => match v.as_str() {
            Some(s) => parse_timestamp_text(s),
            None => None,
        },
        None => None,
    }
}

/// The instant of timestamp field `key`; an error naming the field where it
/// is absent or unreadable.
pub fn parse_timestamp(fields: &Json, key: &str) -> (r: Result<Timestamp, DecodeError>)
    ensures
        match timestamp_field(fields@, key@) {
            Some(t) => r == Ok::<Timestamp, DecodeError>(t),
            None => r is Err && r->Err_0 is MissingField && r->Err_0->MissingField_0@ == key@,
        },
{
    match parse_timestamp_optional(fields, key) {
        Some(t) => Ok(t),
        None => Err(DecodeError::MissingField(String::from_str(key))),
    }
}

/// The string items of array field `key`, in order; other items are skipped.
pub fn parse_string_array(fields: &Json, key: &str) -> (r: Vec<String>)
    ensures
        r@.map_values(|s: String| s@) == string_items(fields@, key@),
{
    let xs = match tagged_payload(fields, key, "arrayValue") {
        Some(a) => match a.get("values") {
            Some(v) => {
                if let Json::Arr(xs) = v {
                    assert(v@->Arr_0 =~= Seq::new(xs@.len(), |i: int| xs@[i]@));
                    xs
                } else {
                    let r: Vec<String> = Vec::new();
                    assert(r@.map_values(|s: String| s@) =~= Seq::<Seq<char>>::empty());
                    return r;
                }
            },
            None => {
                let r: Vec<String> = Vec::new();
                assert(r@.map_values(|s: String| s@) =~= Seq::<Seq<char>>::empty());
                return r;
            },
        },
        None => {
            let r: Vec<String> = Vec::new();
            assert(r@.map_values(|s: String| s@) =~= Seq::<Seq<char>>::empty());
            return r;
        },
    };
    let ghost xm = Seq::new(xs@.len(), |i: int| xs@[i]@);
    assert(string_items(fields@, key@) == strings_among(xm));
    let mut out: Vec<String> = Vec::new();
    let mut i: usize = 0;
    while i < xs.len()
        invariant
            i <= xs@.len(),
            xm == Seq::new(xs@.len(), |i: int| xs@[i]@),
            out@.map_values(|s: String| s@) == strings_among(xm.subrange(0, i as int)),
        decreases xs@.len() - i,
    {
        let ghost before = out@;
        proof {
            assert(xm.subrange(0, i + 1).drop_last() =~= xm.subrange(0, i as int));
            assert(xm.subrange(0, i + 1).last() == xs@[i as int]@);
        }
        match xs[i].get("stringValue") {
            Some(v) => match v.as_str() {
                Some(s) => {
                    out.push(String::from_str(s));
                    assert(out@.map_values(|s: String| s@) =~= before.map_values(|s: String| s@).push(s@));
                },
                None => {},
            },
            None => {},
        }
        i += 1;
    }
    assert(xm.subrange(0, xs@.len() as int) =~= xm);
    out
}

/// The decimal text of double field `key`; an integer-looking number keeps
/// its decimal text too.
pub open spec fn double_field(fields: JsonModel, key: Seq<char>) -> Option<Seq<char>> {
    match tagged_field(fields, key, "doubleValue"@) {
        Some(JsonModel::Num(t)) => Some(t),
        Some(JsonModel::Int(n)) => Some(crate::decimal::int_text(n as int)),
        _ => None,
    }
}

/// The decimal text of double field `key`, if it holds a number.
pub fn parse_double_text(fields: &Json, key: &str) -> (r: Option<String>)
    ensures
        opt_text(r) == double_field(fields@, key@),
{
    match tagged_payload(fields, key, "doubleValue") {
        Some(Json::Num(t)) => Some(t.clone()),
        Some(Json::Int(n)) => Some(crate::decimal::i64_text(*n)),
        _ => None,
    }
}

/// Some entry of `xs` reads `s`.
pub open spec fn listed(xs: Seq<String>, s: Seq<char>) -> bool {
    exists|i: int| 0 <= i < xs.len() && #[trigger] xs[i]@ == s
}

/// Whether some entry of `xs` reads `s`.
pub fn is_listed(xs: &Vec<String>, s: &str) -> (r: bool)
    ensures
        r == listed(xs@, s@),
{
    let mut i: usize = 0;
    while i < xs.len()
        invariant
            i <= xs@.len(),
            forall|k: int| 0 <= k < i ==> (#[trigger] xs@[k])@ != s@,
        decreases xs@.len() - i,
    {
        if crate::json::str_eq(xs[i].as_str(), s) {
            return true;
        }
        i += 1;
    }
    false
}

} // verus!

use omi_store::decimal::{i64_text, parse_i64};
use omi_store::json::Json;
use omi_store::value::{decode, encode, TypedValue};

fn s(x: &str) -> Json {
    Json::Str(x.to_string())
}

fn obj(entries: Vec<(&str, Json)>) -> Json {
    Json::Obj(entries.into_iter().map(|(k, v)| (k.to_string(), v)).collect())
}

fn round_trip(v: TypedValue) {
    let wire = encode(&v);
    assert_eq!(decode(&wire), Some(v));
}

#[test]
fn round_trip_scalars() {
    round_trip(TypedValue::Null);
    round_trip(TypedValue::Bool(true));
    round_trip(TypedValue::Int(0));
    round_trip(TypedValue::Int(-42));
    round_trip(TypedValue::Int(i64::MAX));
    round_trip(TypedValue::Int(i64::MIN));
    round_trip(TypedValue::Double("2.5".to_string()));
    round_trip(TypedValue::Str("Buy milk".to_string()));
    round_trip(TypedValue::Bytes("aGk=".to_string()));
    round_trip(TypedValue::Timestamp("2024-01-01T00:00:00+00:00".to_string()));
}

#[test]
fn round_trip_nested() {
    let v = TypedValue::Object(vec![
        ("title".to_string(), TypedValue::Str("t".to_string())),
        (
            "tags".to_string(),
            TypedValue::Array(vec![TypedValue::Int(1), TypedValue::Array(vec![]), TypedValue::Null]),
        ),
        ("empty".to_string(), TypedValue::Object(vec![])),
    ]);
    round_trip(v);
}

#[test]
fn integers_travel_as_decimal_text() {
    assert_eq!(encode(&TypedValue::Int(-123)), obj(vec![("integerValue", s("-123"))]));
    assert_eq!(decode(&obj(vec![("integerValue", s("77"))])), Some(TypedValue::Int(77)));
    assert_eq!(decode(&obj(vec![("integerValue", Json::Int(77))])), None);
    assert_eq!(decode(&obj(vec![("integerValue", s("9223372036854775808"))])), None);
    assert_eq!(decode(&obj(vec![("integerValue", s("12a"))])), None);
}

#[test]
fn array_and_map_wire_shapes() {
    let v = TypedValue::Array(vec![TypedValue::Bool(false)]);
    assert_eq!(
        encode(&v),
        obj(vec![("arrayValue", obj(vec![("values", Json::Arr(vec![obj(vec![("booleanValue", Json::Bool(false))])]))]))])
    );
    assert_eq!(decode(&obj(vec![("arrayValue", obj(vec![]))])), Some(TypedValue::Array(vec![])));
    assert_eq!(decode(&obj(vec![("mapValue", obj(vec![]))])), Some(TypedValue::Object(vec![])));
    let bad_item = obj(vec![("arrayValue", obj(vec![("values", Json::Arr(vec![s("x")]))]))]);
    assert_eq!(decode(&bad_item), None);
}

#[test]
fn doubles_keep_their_text() {
    assert_eq!(decode(&obj(vec![("doubleValue", Json::Num("0.25".to_string()))])), Some(TypedValue::Double("0.25".to_string())));
    assert_eq!(decode(&obj(vec![("doubleValue", Json::Int(3))])), Some(TypedValue::Double("3".to_string())));
}

#[test]
fn malformed_wire_values_are_refused() {
    assert_eq!(decode(&s("x")), None);
    assert_eq!(decode(&obj(vec![])), None);
    assert_eq!(decode(&obj(vec![("stringValue", s("a")), ("booleanValue", Json::Bool(true))])), None);
    assert_eq!(decode(&obj(vec![("unknownValue", s("a"))])), None);
    assert_eq!(decode(&obj(vec![("nullValue", Json::Bool(true))])), None);
}

#[test]
fn decimal_text_of_integers() {
    assert_eq!(i64_text(0), "0");
    assert_eq!(i64_text(1700000000), "1700000000");
    assert_eq!(i64_text(-5), "-5");
    assert_eq!(i64_text(i64::MIN), "-9223372036854775808");
    assert_eq!(parse_i64("-9223372036854775808"), Some(i64::MIN));
    assert_eq!(parse_i64("9223372036854775807"), Some(i64::MAX));
    assert_eq!(parse_i64("9223372036854775808"), None);
    assert_eq!(parse_i64("007"), Some(7));
    assert_eq!(parse_i64("-"), None);
    assert_eq!(parse_i64(""), None);
}

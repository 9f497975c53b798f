use eventhorizon::connector::errors::ConnectorError;
use eventhorizon::entity::FieldType;
use eventhorizon::json::{JsonNumber, JsonValue};
use eventhorizon::mysql::types::{actual_type_for, decode_column, field_type_label, parse_timestamp, BindValue, Cell, Fetched};
use eventhorizon::strmap::StrMap;
use eventhorizon::values::DecimalValue;

fn s(v: &str) -> JsonValue {
    JsonValue::String(v.to_string())
}

#[test]
fn from_json_accepts_string_for_string_type() {
    let v = BindValue::from_json("name", FieldType::String, &s("Alice")).unwrap();
    assert!(matches!(v, BindValue::String(ref s) if s == "Alice"));
}

#[test]
fn from_json_rejects_number_for_string_type() {
    let err = BindValue::from_json("name", FieldType::String, &JsonValue::Number(JsonNumber::PosInt(42))).unwrap_err();
    assert!(matches!(err, ConnectorError::TypeMismatch { .. }));
}

#[test]
fn from_json_uuid_parses() {
    let v = BindValue::from_json("id", FieldType::Uuid, &s("01914a01-7001-7001-8001-000000000001")).unwrap();
    match v {
        BindValue::Uuid(u) => assert_eq!(uuid::Uuid::from_u128(u).to_string(), "01914a01-7001-7001-8001-000000000001"),
        _ => panic!("expected Uuid"),
    }
}

#[test]
fn from_json_uuid_rejects_garbage() {
    let err = BindValue::from_json("id", FieldType::Uuid, &s("not-a-uuid")).unwrap_err();
    assert!(matches!(err, ConnectorError::TypeMismatch { .. }));
}

#[test]
fn from_json_timestamp_accepts_rfc3339_and_naive() {
    let cases = [
        "2024-09-01T09:00:00Z",
        "2024-09-01T09:00:00+00:00",
        "2024-09-01T09:00:00",
        "2024-09-01 09:00:00",
        "2024-09-01 09:00:00.123",
    ];
    for c in cases {
        let v = BindValue::from_json("signup_at", FieldType::Timestamp, &s(c)).unwrap();
        assert!(matches!(v, BindValue::Timestamp(..)), "failed on {c}");
    }
}

#[test]
fn from_json_timestamp_rejects_garbage() {
    let err = BindValue::from_json("signup_at", FieldType::Timestamp, &s("yesterday")).unwrap_err();
    assert!(matches!(err, ConnectorError::TypeMismatch { .. }));
}

#[test]
fn from_json_decimal_accepts_string_and_number() {
    let v1 = BindValue::from_json("ltv", FieldType::Decimal, &s("1250.00")).unwrap();
    assert!(matches!(v1, BindValue::Decimal(_)));
    let v2 = BindValue::from_json("ltv", FieldType::Decimal, &JsonValue::Number(JsonNumber::PosInt(1250))).unwrap();
    assert!(matches!(v2, BindValue::Decimal(_)));
}

#[test]
fn from_json_int_range_checked() {
    let ok = BindValue::from_json("n", FieldType::Int, &JsonValue::Number(JsonNumber::PosInt(42))).unwrap();
    assert!(matches!(ok, BindValue::I32(42)));
    let too_big = BindValue::from_json("n", FieldType::Int, &JsonValue::Number(JsonNumber::PosInt(i64::MAX as u64))).unwrap_err();
    assert!(matches!(too_big, ConnectorError::TypeMismatch { .. }));
}

#[test]
fn from_json_null_is_null_for_any_type() {
    let v = BindValue::from_json("x", FieldType::String, &JsonValue::Null).unwrap();
    assert!(matches!(v, BindValue::Null));
    let v = BindValue::from_json("x", FieldType::Uuid, &JsonValue::Null).unwrap();
    assert!(matches!(v, BindValue::Null));
}

#[test]
fn parsed_values_are_exact() {
    match BindValue::from_json("ts", FieldType::Timestamp, &s("2024-09-01T09:00:00Z")).unwrap() {
        BindValue::Timestamp(secs, nanos) => {
            assert_eq!(secs, 1_725_181_200);
            assert_eq!(nanos, 0);
        }
        _ => panic!("expected Timestamp"),
    }
    assert_eq!(parse_timestamp("2024-09-01 09:00:00.123"), Some((1_725_181_200, 123_000_000)));
    assert_eq!(parse_timestamp("2024-09-01T11:00:00+02:00"), Some((1_725_181_200, 0)));
    assert_eq!(parse_timestamp("yesterday"), None);
    match BindValue::from_json("ltv", FieldType::Decimal, &s("-1250.50")).unwrap() {
        BindValue::Decimal(d) => assert_eq!(d, DecimalValue { negative: true, magnitude: 125050, scale: 2 }),
        _ => panic!("expected Decimal"),
    }
    match BindValue::from_json("ltv", FieldType::Decimal, &JsonValue::Number(JsonNumber::NegInt(-7))).unwrap() {
        BindValue::Decimal(d) => assert_eq!(d, DecimalValue { negative: true, magnitude: 7, scale: 0 }),
        _ => panic!("expected Decimal"),
    }
    match BindValue::from_json("blob", FieldType::Binary, &s("DEad01")).unwrap() {
        BindValue::Bytes(b) => assert_eq!(b, vec![0xde, 0xad, 0x01]),
        _ => panic!("expected Bytes"),
    }
    assert!(BindValue::from_json("blob", FieldType::Binary, &s("abc")).is_err());
    match BindValue::from_json("id", FieldType::Uuid, &s("01914a01-7001-7001-8001-000000000001")).unwrap() {
        BindValue::Uuid(u) => assert_eq!(u, 0x01914a0170017001800100000000_0001u128),
        _ => panic!("expected Uuid"),
    }
}

#[test]
fn mismatch_names_field_expected_and_actual() {
    let err = BindValue::from_json("flag", FieldType::Bool, &s("yes")).unwrap_err();
    assert_eq!(err.message(), "type mismatch on field `flag`: expected bool, got string");
    let err = BindValue::from_json("n", FieldType::BigInt, &JsonValue::Array(vec![])).unwrap_err();
    assert_eq!(err.message(), "type mismatch on field `n`: expected bigint, got array");
    assert_eq!(field_type_label(FieldType::BigInt), "bigint");
    assert_eq!(actual_type_for(&JsonValue::Object(StrMap::new())), "object");
    let v = BindValue::from_json("j", FieldType::Json, &s("any")).unwrap();
    assert!(matches!(v, BindValue::Json(JsonValue::String(ref t)) if t == "any"));
    let f = BindValue::from_json("f", FieldType::Float, &JsonValue::Number(JsonNumber::Float("1.5".to_string()))).unwrap();
    assert!(matches!(f, BindValue::F64(JsonNumber::Float(ref t)) if t == "1.5"));
}

#[test]
fn decode_column_renders_each_type() {
    let u = 0x01914a01700170018001000000000001u128;
    assert!(matches!(decode_column("id", FieldType::Uuid, Fetched::Value(Cell::Uuid(u))), Ok(JsonValue::String(ref t)) if t == "01914a01-7001-7001-8001-000000000001"));
    assert!(matches!(
        decode_column("ts", FieldType::Timestamp, Fetched::Value(Cell::Timestamp(1_725_181_200, 123_000_000))),
        Ok(JsonValue::String(ref t)) if t == "2024-09-01T09:00:00.123Z"
    ));
    assert!(matches!(
        decode_column("ts", FieldType::Timestamp, Fetched::Value(Cell::Timestamp(1_725_181_200, 0))),
        Ok(JsonValue::String(ref t)) if t == "2024-09-01T09:00:00Z"
    ));
    let d = DecimalValue { negative: true, magnitude: 5, scale: 3 };
    assert!(matches!(decode_column("d", FieldType::Decimal, Fetched::Value(Cell::Decimal(d))), Ok(JsonValue::String(ref t)) if t == "-0.005"));
    let d = DecimalValue { negative: false, magnitude: 125000, scale: 2 };
    assert!(matches!(decode_column("d", FieldType::Decimal, Fetched::Value(Cell::Decimal(d))), Ok(JsonValue::String(ref t)) if t == "1250.00"));
    assert!(matches!(decode_column("b", FieldType::Binary, Fetched::Value(Cell::Bytes(vec![0xde, 0xad]))), Ok(JsonValue::String(ref t)) if t == "dead"));
    assert!(matches!(decode_column("n", FieldType::BigInt, Fetched::Value(Cell::BigInt(-3))), Ok(JsonValue::Number(JsonNumber::NegInt(-3)))));
    assert!(matches!(decode_column("n", FieldType::Int, Fetched::Value(Cell::Int(3))), Ok(JsonValue::Number(JsonNumber::PosInt(3)))));
    assert!(matches!(decode_column("f", FieldType::Float, Fetched::Value(Cell::Float(None))), Ok(JsonValue::Null)));
    assert!(matches!(decode_column("x", FieldType::String, Fetched::Null), Ok(JsonValue::Null)));
}

#[test]
fn decode_column_failures_name_the_decode() {
    let err = decode_column("email", FieldType::Text, Fetched::Failed).unwrap_err();
    assert!(matches!(err, ConnectorError::TypeMismatch { ref field, ref expected, ref actual } if field == "email" && expected == "text" && actual == "string-decode"));
    let err = decode_column("id", FieldType::Uuid, Fetched::Value(Cell::Text("x".to_string()))).unwrap_err();
    assert_eq!(err.message(), "type mismatch on field `id`: expected uuid, got uuid-decode");
    let err = decode_column("ts", FieldType::Timestamp, Fetched::Value(Cell::Timestamp(i64::MAX, 0))).unwrap_err();
    assert!(matches!(err, ConnectorError::TypeMismatch { ref actual, .. } if actual == "timestamp-decode"));
}

fn stored(b: BindValue) -> Fetched {
    match b {
        BindValue::Null => Fetched::Null,
        BindValue::String(s) => Fetched::Value(Cell::Text(s)),
        BindValue::I32(n) => Fetched::Value(Cell::Int(n)),
        BindValue::I64(n) => Fetched::Value(Cell::BigInt(n)),
        BindValue::Bool(x) => Fetched::Value(Cell::Bool(x)),
        BindValue::Json(j) => Fetched::Value(Cell::Json(j)),
        BindValue::Bytes(b) => Fetched::Value(Cell::Bytes(b)),
        other => panic!("not a round-trip type: {other:?}"),
    }
}

#[test]
fn written_values_read_back() {
    let cases: Vec<(FieldType, JsonValue)> = vec![
        (FieldType::String, s("alice@example.com")),
        (FieldType::Text, s("")),
        (FieldType::Int, JsonValue::Number(JsonNumber::NegInt(-7))),
        (FieldType::BigInt, JsonValue::Number(JsonNumber::PosInt(9_000_000_000))),
        (FieldType::Bool, JsonValue::Bool(true)),
        (FieldType::Binary, s("deadbeef")),
        (FieldType::Json, JsonValue::Array(vec![JsonValue::Null, s("x")])),
        (FieldType::Uuid, JsonValue::Null),
    ];
    for (t, v) in cases {
        let expected = format!("{v:?}");
        let bound = BindValue::from_json("f", t, &v).unwrap();
        let back = decode_column("f", t, stored(bound)).unwrap();
        assert_eq!(format!("{back:?}"), expected);
    }
}

#[test]
fn uppercase_hex_reads_back_lowercase() {
    let bound = BindValue::from_json("f", FieldType::Binary, &s("DEAD")).unwrap();
    let back = decode_column("f", FieldType::Binary, stored(bound)).unwrap();
    assert!(matches!(back, JsonValue::String(ref t) if t == "dead"));
}

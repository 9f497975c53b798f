use eventhorizon::connector::errors::ConnectorError;
use eventhorizon::mysql::arrow_schema::{append_value, ArrayBuilderHandle, ArrowCell, ArrowType, MysqlColumn};
use eventhorizon::values::DecimalValue;

fn col(name: &str, data_type: &str, column_type: &str, nullable: bool) -> MysqlColumn {
    MysqlColumn {
        name: name.into(),
        data_type: data_type.into(),
        column_type: column_type.into(),
        nullable,
        decimal_precision: None,
        decimal_scale: None,
    }
}

#[test]
fn tinyint_one_maps_to_boolean() {
    let f = col("is_active", "tinyint", "tinyint(1)", false).arrow_field().unwrap();
    assert_eq!(f.data_type, ArrowType::Boolean);
    assert!(!f.nullable);
}

#[test]
fn tinyint_n_maps_to_int8() {
    let f = col("kind", "tinyint", "tinyint(4)", true).arrow_field().unwrap();
    assert_eq!(f.data_type, ArrowType::Int8);
    assert!(f.nullable);
}

#[test]
fn integer_family_maps_to_int_widths() {
    assert_eq!(col("a", "smallint", "smallint(6)", false).arrow_field().unwrap().data_type, ArrowType::Int16);
    assert_eq!(col("a", "int", "int(11)", false).arrow_field().unwrap().data_type, ArrowType::Int32);
    assert_eq!(col("a", "bigint", "bigint(20)", false).arrow_field().unwrap().data_type, ArrowType::Int64);
}

#[test]
fn decimal_uses_precision_and_scale() {
    let mut c = col("ltv", "decimal", "decimal(10,2)", false);
    c.decimal_precision = Some(10);
    c.decimal_scale = Some(2);
    match c.arrow_field().unwrap().data_type {
        ArrowType::Decimal128(p, s) => {
            assert_eq!(p, 10);
            assert_eq!(s, 2);
        }
        other => panic!("expected Decimal128(10,2); got {other:?}"),
    }
}

#[test]
fn varchar_and_text_map_to_utf8() {
    for (dt, ct) in &[
        ("varchar", "varchar(255)"),
        ("text", "text"),
        ("longtext", "longtext"),
        ("char", "char(36)"),
        ("enum", "enum('a','b')"),
        ("json", "json"),
    ] {
        assert_eq!(col("c", dt, ct, false).arrow_field().unwrap().data_type, ArrowType::Utf8, "{dt} should map to Utf8");
    }
}

#[test]
fn binary_family_maps_to_large_binary() {
    for (dt, ct) in &[("binary", "binary(16)"), ("varbinary", "varbinary(255)"), ("blob", "blob"), ("longblob", "longblob")] {
        assert_eq!(col("c", dt, ct, false).arrow_field().unwrap().data_type, ArrowType::LargeBinary, "{dt} should map to LargeBinary");
    }
}

#[test]
fn datetime_and_timestamp_map_to_micros() {
    for dt in &["datetime", "timestamp"] {
        assert_eq!(col("when", dt, dt, true).arrow_field().unwrap().data_type, ArrowType::TimestampMicros);
    }
}

#[test]
fn date_maps_to_date32() {
    assert_eq!(col("d", "date", "date", false).arrow_field().unwrap().data_type, ArrowType::Date32);
}

#[test]
fn unknown_type_errors_actionably() {
    let err = col("c", "geography", "geography", false).arrow_field().unwrap_err();
    match err {
        ConnectorError::Backend(msg) => {
            assert!(msg.contains("unsupported"));
            assert!(msg.contains("geography"));
            assert!(msg.contains("narrow the source access scope") || msg.contains("Narrow"));
        }
        other => panic!("expected Backend error; got {other:?}"),
    }
}

#[test]
fn decimal_defaults_and_builder_validation() {
    let c = col("n", "numeric", "numeric", false);
    assert_eq!(c.arrow_field().unwrap().data_type, ArrowType::Decimal128(38, 0));
    assert!(ArrayBuilderHandle::for_data_type(&ArrowType::Decimal128(10, 2), 4).is_ok());
    match ArrayBuilderHandle::for_data_type(&ArrowType::Decimal128(65, 30), 4) {
        Err(ConnectorError::Backend(m)) => assert!(m.starts_with("decimal builder init failed: ")),
        _ => panic!("precision 65 must be refused"),
    }
}

#[test]
fn append_value_rescales_decimals_and_keeps_nulls() {
    let mut b = ArrayBuilderHandle::for_data_type(&ArrowType::Decimal128(10, 2), 4).unwrap();
    let up = DecimalValue { negative: false, magnitude: 15, scale: 1 };
    append_value("ltv", Ok(Some(ArrowCell::Decimal(up))), &mut b).unwrap();
    let down = DecimalValue { negative: true, magnitude: 12345, scale: 3 };
    append_value("ltv", Ok(Some(ArrowCell::Decimal(down))), &mut b).unwrap();
    append_value("ltv", Ok(None), &mut b).unwrap();
    match b {
        ArrayBuilderHandle::Decimal128(v, p, s) => {
            assert_eq!(v, vec![Some(150), Some(-1234), None]);
            assert_eq!((p, s), (10, 2));
        }
        _ => panic!("expected Decimal128 buffer"),
    }
}

#[test]
fn append_value_reports_read_errors_and_overflow() {
    let mut b = ArrayBuilderHandle::for_data_type(&ArrowType::Utf8, 1).unwrap();
    let err = append_value("name", Err("column not found".to_string()), &mut b).unwrap_err();
    assert_eq!(err.message(), "backend error: name: column not found");
    append_value("name", Ok(Some(ArrowCell::Text("x".to_string()))), &mut b).unwrap();
    assert!(matches!(b, ArrayBuilderHandle::Utf8(ref v) if v.len() == 1));
    let mut d = ArrayBuilderHandle::for_data_type(&ArrowType::Decimal128(38, 38), 1).unwrap();
    let big = DecimalValue { negative: false, magnitude: 123, scale: 0 };
    let err = append_value("ltv", Ok(Some(ArrowCell::Decimal(big))), &mut d).unwrap_err();
    assert_eq!(err.message(), "backend error: ltv: decimal overflow scaling 123 up to scale 38");
    let mut dates = ArrayBuilderHandle::for_data_type(&ArrowType::Date32, 1).unwrap();
    append_value("d", Ok(Some(ArrowCell::Date(19967))), &mut dates).unwrap();
    assert!(matches!(dates, ArrayBuilderHandle::Date32(ref v) if v == &vec![Some(19967)]));
}

#[test]
fn decimal_builder_refusals_name_the_bound() {
    let cases: Vec<((u8, i8), &str)> = vec![
        ((65, 30), "precision 65 is greater than max 38"),
        ((0, 0), "precision cannot be 0, has to be between [1, 38]"),
        ((38, 39), "scale 39 is greater than max 38"),
        ((5, 6), "scale 6 is greater than precision 5"),
    ];
    for ((p, s), text) in cases {
        match ArrayBuilderHandle::for_data_type(&ArrowType::Decimal128(p, s), 1) {
            Err(ConnectorError::Backend(m)) => {
                assert_eq!(m, format!("decimal builder init failed: Invalid argument error: {text}"))
            },
            _ => panic!("decimal ({p}, {s}) must be refused"),
        }
    }
    assert!(ArrayBuilderHandle::for_data_type(&ArrowType::Decimal128(5, -3), 1).is_ok());
}

//! Typed conversion between JSON wire values and MySQL parameter / row
//! slots.
//!
//! Each entity field declares a `FieldType`, and the conversion enforces it
//! in both directions: a JSON value whose shape does not match the
//! declared type gives `ConnectorError::TypeMismatch`, never a silent
//! coercion.

use vstd::prelude::*;
use vstd::string::StringExecFns;

use crate::connector::errors::{ConnectorError, ConnectorErrorView};
use crate::entity::FieldType;
use crate::json::{
    json_clone, json_view, lemma_json_view_top, number_view, JsonNumber, JsonNumberView, JsonValue,
    JsonView,
};
use crate::text::{decimal_text, push_char, push_decimal};
use crate::values::{
    decimal_display, decimal_parse, decimal_parsed, decimal_string, format_instant, hex_bytes,
    hex_decodable, hex_decode, hex_encode, hex_lower, instant_text, iso_datetime_format,
    naive_instant, naive_parse, rfc3339_instant, rfc3339_parse, uuid_parse, uuid_parsed,
    uuid_string, uuid_text, hex_val, is_hex_char, lower_hex_digit, DecimalValue,
};

verus! {

/// A value ready to be bound as a positional query parameter.
///
/// A `Float` keeps the JSON number it was given; it becomes an `f64` only
/// when it is bound. A `Timestamp` is a UTC instant: seconds since the
/// epoch and nanoseconds within the second.
#[derive(Debug)]
pub enum BindValue {
    String(String),
    I32(i32),
    I64(i64),
    F64(JsonNumber),
    Bool(bool),
    Uuid(u128),
    Timestamp(i64, u32),
    Decimal(DecimalValue),
    Json(JsonValue),
    Bytes(Vec<u8>),
    Null,
}

/// A bind value, by value.
pub enum BindValueView {
    String(Seq<char>),
    I32(i32),
    I64(i64),
    F64(JsonNumberView),
    Bool(bool),
    Uuid(u128),
    Timestamp(i64, u32),
    Decimal(DecimalValue),
    Json(JsonView),
    Bytes(Seq<u8>),
    Null,
}

impl View for BindValue {
    type V = BindValueView;

    open spec fn view(&self) -> BindValueView {
        match self {
            BindValue::String(s) => BindValueView::String(s@),
            BindValue::I32(n) => BindValueView::I32(*n),
            BindValue::I64(n) => BindValueView::I64(*n),
            BindValue::F64(n) => BindValueView::F64(number_view(*n)),
            BindValue::Bool(b) => BindValueView::Bool(*b),
            BindValue::Uuid(u) => BindValueView::Uuid(*u),
            BindValue::Timestamp(s, n) => BindValueView::Timestamp(*s, *n),
            BindValue::Decimal(d) => BindValueView::Decimal(*d),
            BindValue::Json(j) => BindValueView::Json(json_view(*j)),
            BindValue::Bytes(b) => BindValueView::Bytes(b@),
            BindValue::Null => BindValueView::Null,
        }
    }
}

impl Clone for BindValue {
    fn clone(&self) -> (r: Self)
        ensures
            r@ == self@,
    {
        match self {
            BindValue::String(s) => BindValue::String(s.clone()),
            BindValue::I32(n) => BindValue::I32(*n),
            BindValue::I64(n) => BindValue::I64(*n),
            BindValue::F64(n) => BindValue::F64(n.copy()),
            BindValue::Bool(b) => BindValue::Bool(*b),
            BindValue::Uuid(u) => BindValue::Uuid(*u),
            BindValue::Timestamp(s, n) => BindValue::Timestamp(*s, *n),
            BindValue::Decimal(d) => BindValue::Decimal(*d),
            BindValue::Json(j) => BindValue::Json(json_clone(j)),
            BindValue::Bytes(b) => BindValue::Bytes(b.clone()),
            BindValue::Null => BindValue::Null,
        }
    }
}

/// The result of a conversion, by value.
pub open spec fn bind_result_view(r: Result<BindValue, ConnectorError>) -> Result<BindValueView, ConnectorErrorView> {
    match r {
        Ok(b) => Ok(b@),
        Err(e) => Err(e@),
    }
}

/// The lowercase name of a field type, as type errors report it.
pub open spec fn spec_field_type_label(t: FieldType) -> Seq<char> {
    match t {
        FieldType::String => "string"@,
        FieldType::Text => "text"@,
        FieldType::Int => "int"@,
        FieldType::BigInt => "bigint"@,
        FieldType::Decimal => "decimal"@,
        FieldType::Float => "float"@,
        FieldType::Bool => "bool"@,
        FieldType::Uuid => "uuid"@,
        FieldType::Timestamp => "timestamp"@,
        FieldType::Json => "json"@,
        FieldType::Binary => "binary"@,
    }
}

/// The lowercase name of a field type (`"bigint"`, `"timestamp"`, ...).
pub fn field_type_label(t: FieldType) -> (r: &'static str)
    ensures
        r@ == spec_field_type_label(t),
{
    match t {
        FieldType::String => "string",
        FieldType::Text => "text",
        FieldType::Int => "int",
        FieldType::BigInt => "bigint",
        FieldType::Decimal => "decimal",
        FieldType::Float => "float",
        FieldType::Bool => "bool",
        FieldType::Uuid => "uuid",
        FieldType::Timestamp => "timestamp",
        FieldType::Json => "json",
        FieldType::Binary => "binary",
    }
}

/// The name of a JSON value's kind, as type errors report it.
pub open spec fn spec_actual_type(v: JsonView) -> Seq<char> {
    match v {
        JsonView::Null => "null"@,
        JsonView::Bool(_) => "bool"@,
        JsonView::Number(_) => "number"@,
        JsonView::String(_) => "string"@,
        JsonView::Array(_) => "array"@,
        JsonView::Object(_) => "object"@,
    }
}

/// The name of a JSON value's kind (`"null"`, `"number"`, ...).
pub fn actual_type_for(value: &JsonValue) -> (r: &'static str)
    ensures
        r@ == spec_actual_type(json_view(*value)),
{
    proof {
        lemma_json_view_top(*value);
    }
    match value {
        JsonValue::Null => "null",
        JsonValue::Bool(_) => "bool",
        JsonValue::Number(_) => "number",
        JsonValue::String(_) => "string",
        JsonValue::Array(_) => "array",
        JsonValue::Object(_) => "object",
    }
}

/// The type error for a value that does not fit its field.
pub open spec fn mismatch_view(field: Seq<char>, expected: FieldType, v: JsonView) -> ConnectorErrorView {
    ConnectorErrorView::TypeMismatch(field, spec_field_type_label(expected), spec_actual_type(v))
}

/// The type error for a value that does not fit its field.
pub fn mismatch(field: &str, expected: FieldType, value: &JsonValue) -> (e: ConnectorError)
    ensures
        e@ == mismatch_view(field@, expected, json_view(*value)),
{
    ConnectorError::TypeMismatch {
        field: String::from_str(field),
        expected: String::from_str(field_type_label(expected)),
        actual: String::from_str(actual_type_for(value)),
    }
}

/// The value of a JSON number as an `i64`, when it is an integer in range.
pub open spec fn json_i64(v: JsonView) -> Option<i64> {
    match v {
        JsonView::Number(JsonNumberView::PosInt(u)) => if u <= i64::MAX {
            Some(u as i64)
        } else {
            None
        },
        JsonView::Number(JsonNumberView::NegInt(i)) => Some(i),
        _ => None,
    }
}

fn as_i64(value: &JsonValue) -> (r: Option<i64>)
    ensures
        r == json_i64(json_view(*value)),
{
    proof {
        lemma_json_view_top(*value);
    }
    match value {
        JsonValue::Number(JsonNumber::PosInt(u)) => if *u <= i64::MAX as u64 {
            Some(*u as i64)
        } else {
            None
        },
        JsonValue::Number(JsonNumber::NegInt(i)) => Some(*i),
        _ => None,
    }
}

/// The decimal text of a signed integer.
pub open spec fn signed_decimal_text(i: int) -> Seq<char> {
    if i < 0 {
        seq!['-'] + decimal_text((-i) as nat)
    } else {
        decimal_text(i as nat)
    }
}

/// The text a JSON number displays.
pub open spec fn number_text(n: JsonNumberView) -> Seq<char> {
    match n {
        JsonNumberView::PosInt(u) => decimal_text(u as nat),
        JsonNumberView::NegInt(i) => signed_decimal_text(i as int),
        JsonNumberView::Float(t) => t,
    }
}

/// The text of a JSON number.
pub fn number_string(n: &JsonNumber) -> (r: String)
    ensures
        r@ == number_text(number_view(*n)),
{
    match n {
        JsonNumber::PosInt(u) => {
            let mut s = String::new();
            push_decimal(&mut s, *u);
            s
        },
        JsonNumber::NegInt(i) => {
            let mut s = String::new();
            if *i < 0 {
                push_char(&mut s, '-');
                let m: u64 = ((-(*i + 1)) as u64) + 1;
                push_decimal(&mut s, m);
            } else {
                push_decimal(&mut s, *i as u64);
            }
            s
        },
        JsonNumber::Float(t) => t.clone(),
    }
}

/// The formats a zone-less timestamp is tried in, in order.
pub open spec fn timestamp_formats() -> Seq<Seq<char>> {
    seq![
        "%Y-%m-%dT%H:%M:%S%.f"@,
        "%Y-%m-%d %H:%M:%S%.f"@,
        "%Y-%m-%dT%H:%M:%S"@,
        "%Y-%m-%d %H:%M:%S"@,
    ]
}

/// The instant read by the first of `fmts` that accepts `s`.
pub open spec fn first_naive(s: Seq<char>, fmts: Seq<Seq<char>>) -> Option<(i64, u32)>
    decreases fmts.len(),
{
    if fmts.len() == 0 {
        None
    } else {
        match naive_instant(s, fmts[0]) {
            Some(t) => Some(t),
            None => first_naive(s, fmts.drop_first()),
        }
    }
}

/// RFC 3339 (with `Z` or an offset) first, then the zone-less forms,
/// taken as UTC.
pub open spec fn spec_parse_timestamp(s: Seq<char>) -> Option<(i64, u32)> {
    match rfc3339_instant(s) {
        Some(t) => Some(t),
        None => first_naive(s, timestamp_formats()),
    }
}

/// Reads a timestamp: RFC 3339 first, then the zone-less forms
/// `YYYY-MM-DD[T ]HH:MM:SS[.fraction]`.
pub fn parse_timestamp(s: &str) -> (r: Option<(i64, u32)>)
    ensures
        r == spec_parse_timestamp(s@),
{
    proof {
        reveal_with_fuel(first_naive, 5);
        let f = timestamp_formats();
        assert(f.drop_first()[0] == f[1]);
        assert(f.drop_first().drop_first()[0] == f[2]);
        assert(f.drop_first().drop_first().drop_first()[0] == f[3]);
        assert(f.drop_first().drop_first().drop_first().drop_first().len() == 0);
    }
    if let Some(t) = rfc3339_parse(s) {
        return Some(t);
    }
    if let Some(t) = naive_parse(s, "%Y-%m-%dT%H:%M:%S%.f") {
        return Some(t);
    }
    if let Some(t) = naive_parse(s, "%Y-%m-%d %H:%M:%S%.f") {
        return Some(t);
    }
    if let Some(t) = naive_parse(s, "%Y-%m-%dT%H:%M:%S") {
        return Some(t);
    }
    naive_parse(s, "%Y-%m-%d %H:%M:%S")
}

/// What a text-encoded field's value reads as, by field type: a UUID,
/// a timestamp, a decimal or hexadecimal bytes.
pub open spec fn parsed_text(t: FieldType, s: Seq<char>) -> Option<BindValueView> {
    match t {
        FieldType::Uuid => match uuid_parsed(s) {
            Some(u) => Some(BindValueView::Uuid(u)),
            None => None,
        },
        FieldType::Timestamp => match spec_parse_timestamp(s) {
            Some((secs, nanos)) => Some(BindValueView::Timestamp(secs, nanos)),
            None => None,
        },
        FieldType::Decimal => match decimal_parsed(s) {
            Some(d) => Some(BindValueView::Decimal(d)),
            None => None,
        },
        _ => if hex_decodable(s) {
            Some(BindValueView::Bytes(hex_bytes(s)))
        } else {
            None
        },
    }
}

/// The conversion of a JSON value for a field of the given type.
pub open spec fn bind_outcome(field: Seq<char>, t: FieldType, v: JsonView) -> Result<BindValueView, ConnectorErrorView> {
    let bad = Err(mismatch_view(field, t, v));
    if v is Null {
        Ok(BindValueView::Null)
    } else {
        match t {
            FieldType::String | FieldType::Text => match v {
                JsonView::String(s) => Ok(BindValueView::String(s)),
                _ => bad,
            },
            FieldType::Int => match json_i64(v) {
                Some(n) => if i32::MIN <= n <= i32::MAX {
                    Ok(BindValueView::I32(n as i32))
                } else {
                    bad
                },
                None => bad,
            },
            FieldType::BigInt => match json_i64(v) {
                Some(n) => Ok(BindValueView::I64(n)),
                None => bad,
            },
            FieldType::Float => match v {
                JsonView::Number(n) => Ok(BindValueView::F64(n)),
                _ => bad,
            },
            FieldType::Bool => match v {
                JsonView::Bool(b) => Ok(BindValueView::Bool(b)),
                _ => bad,
            },
            FieldType::Json => Ok(BindValueView::Json(v)),
            FieldType::Decimal => match v {
                JsonView::String(s) => parsed_or(parsed_text(t, s), bad),
                JsonView::Number(n) => parsed_or(parsed_text(t, number_text(n)), bad),
                _ => bad,
            },
            FieldType::Uuid | FieldType::Timestamp | FieldType::Binary => match v {
                JsonView::String(s) => parsed_or(parsed_text(t, s), bad),
                _ => bad,
            },
        }
    }
}

/// A parse result, or the given error when nothing was read.
pub open spec fn parsed_or(p: Option<BindValueView>, bad: Result<BindValueView, ConnectorErrorView>) -> Result<BindValueView, ConnectorErrorView> {
    match p {
        Some(b) => Ok(b),
        None => bad,
    }
}

impl BindValue {
    /// Reads `s` as a value of a text-encoded field type: a UUID, a
    /// timestamp, a decimal, or (for any other type) hexadecimal bytes.
    pub fn parse_text(field_type: FieldType, s: &str) -> (r: Option<BindValue>)
        ensures
            match r {
                Some(b) => parsed_text(field_type, s@) == Some(b@),
                None => parsed_text(field_type, s@) is None,
            },
    {
        match field_type {
            FieldType::Uuid => match uuid_parse(s) {
                Some(u) => Some(BindValue::Uuid(u)),
                None => None,
            },
            FieldType::Timestamp => match parse_timestamp(s) {
                Some((secs, nanos)) => Some(BindValue::Timestamp(secs, nanos)),
                None => None,
            },
            FieldType::Decimal => match decimal_parse(s) {
                Some(d) => Some(BindValue::Decimal(d)),
                None => None,
            },
            _ => match hex_decode(s) {
                Some(b) => Some(BindValue::Bytes(b)),
                None => None,
            },
        }
    }

    /// The value read from a field's text, or the field's type error when
    /// nothing could be read.
    pub fn parsed_or_mismatch(
        field_name: &str,
        field_type: FieldType,
        value: &JsonValue,
        parsed: Option<BindValue>,
    ) -> (r: Result<BindValue, ConnectorError>)
        ensures
            match parsed {
                Some(b) => r matches Ok(x) && x@ == b@,
                None => r matches Err(e) && e@ == mismatch_view(field_name@, field_type, json_view(*value)),
            },
    {
        match parsed {
            Some(b) => Ok(b),
            None => Err(mismatch(field_name, field_type, value)),
        }
    }

    /// Converts a JSON wire value into a bind value for a field of the
    /// declared type. `null` is accepted for every type; any other value
    /// must have the type's shape, else the result is a `TypeMismatch`.
    pub fn from_json(field_name: &str, field_type: FieldType, value: &JsonValue) -> (r: Result<BindValue, ConnectorError>)
        ensures
            bind_result_view(r) == bind_outcome(field_name@, field_type, json_view(*value)),
    {
        proof {
            lemma_json_view_top(*value);
        }
        if let JsonValue::Null = value {
            return Ok(BindValue::Null);
        }
        match field_type {
            FieldType::String | FieldType::Text => match value {
                JsonValue::String(s) => Ok(BindValue::String(s.clone())),
                _ => Err(mismatch(field_name, field_type, value)),
            },
            FieldType::Int => match as_i64(value) {
                Some(n) => if i32::MIN as i64 <= n && n <= i32::MAX as i64 {
                    Ok(BindValue::I32(n as i32))
                } else {
                    Err(mismatch(field_name, field_type, value))
                },
                None => Err(mismatch(field_name, field_type, value)),
            },
            FieldType::BigInt => match as_i64(value) {
                Some(n) => Ok(BindValue::I64(n)),
                None => Err(mismatch(field_name, field_type, value)),
            },
            FieldType::Float => match value {
                JsonValue::Number(n) => Ok(BindValue::F64(n.copy())),
                _ => Err(mismatch(field_name, field_type, value)),
            },
            FieldType::Bool => match value {
                JsonValue::Bool(b) => Ok(BindValue::Bool(*b)),
                _ => Err(mismatch(field_name, field_type, value)),
            },
            FieldType::Json => Ok(BindValue::Json(json_clone(value))),
            FieldType::Decimal => match value {
                JsonValue::String(s) => {
                    let p = Self::parse_text(field_type, s.as_str());
                    Self::parsed_or_mismatch(field_name, field_type, value, p)
                },
                JsonValue::Number(n) => {
                    let t = number_string(n);
                    let p = Self::parse_text(field_type, t.as_str());
                    Self::parsed_or_mismatch(field_name, field_type, value, p)
                },
                _ => Err(mismatch(field_name, field_type, value)),
            },
            FieldType::Uuid | FieldType::Timestamp | FieldType::Binary => match value {
                JsonValue::String(s) => {
                    let p = Self::parse_text(field_type, s.as_str());
                    Self::parsed_or_mismatch(field_name, field_type, value, p)
                },
                _ => Err(mismatch(field_name, field_type, value)),
            },
        }
    }
}


/// A column value as the driver decoded it for a field, in the native
/// type of the field's `FieldType`. A float that is not finite has no JSON
/// number, so it arrives as `Float(None)`.
#[derive(Debug)]
pub enum Cell {
    Text(String),
    Int(i32),
    BigInt(i64),
    Float(Option<JsonNumber>),
    Bool(bool),
    Uuid(u128),
    Timestamp(i64, u32),
    Decimal(DecimalValue),
    Json(JsonValue),
    Bytes(Vec<u8>),
}

/// What reading one column of a row gave: a decode failure, SQL `NULL`,
/// or a value.
#[derive(Debug)]
pub enum Fetched {
    Failed,
    Null,
    Value(Cell),
}

/// A decoded cell, by value.
pub enum CellView {
    Text(Seq<char>),
    Int(i32),
    BigInt(i64),
    Float(Option<JsonNumberView>),
    Bool(bool),
    Uuid(u128),
    Timestamp(i64, u32),
    Decimal(DecimalValue),
    Json(JsonView),
    Bytes(Seq<u8>),
}

/// A fetched column, by value.
pub enum FetchedView {
    Failed,
    Null,
    Value(CellView),
}

impl View for Fetched {
    type V = FetchedView;

    open spec fn view(&self) -> FetchedView {
        match self {
            Fetched::Failed => FetchedView::Failed,
            Fetched::Null => FetchedView::Null,
            Fetched::Value(c) => FetchedView::Value(
                match c {
                    Cell::Text(s) => CellView::Text(s@),
                    Cell::Int(n) => CellView::Int(*n),
                    Cell::BigInt(n) => CellView::BigInt(*n),
                    Cell::Float(n) => CellView::Float(
                        match n {
                            Some(x) => Some(number_view(*x)),
                            None => None,
                        },
                    ),
                    Cell::Bool(b) => CellView::Bool(*b),
                    Cell::Uuid(u) => CellView::Uuid(*u),
                    Cell::Timestamp(s, n) => CellView::Timestamp(*s, *n),
                    Cell::Decimal(d) => CellView::Decimal(*d),
                    Cell::Json(j) => CellView::Json(json_view(*j)),
                    Cell::Bytes(b) => CellView::Bytes(b@),
                },
            ),
        }
    }
}

impl Fetched {
    /// A decimal cell is within `rust_decimal`'s ranges.
    pub open spec fn wf(&self) -> bool {
        self matches Fetched::Value(Cell::Decimal(d)) ==> d.wf()
    }
}

/// The label a failed decode of a field type reports as the seen type.
pub open spec fn spec_decode_label(t: FieldType) -> Seq<char> {
    match t {
        FieldType::String | FieldType::Text => "string-decode"@,
        FieldType::Int => "int-decode"@,
        FieldType::BigInt => "bigint-decode"@,
        FieldType::Float => "float-decode"@,
        FieldType::Bool => "bool-decode"@,
        FieldType::Uuid => "uuid-decode"@,
        FieldType::Timestamp => "timestamp-decode"@,
        FieldType::Decimal => "decimal-decode"@,
        FieldType::Json => "json-decode"@,
        FieldType::Binary => "bytes-decode"@,
    }
}

/// The label a failed decode of a field type reports.
pub fn decode_label(t: FieldType) -> (r: &'static str)
    ensures
        r@ == spec_decode_label(t),
{
    match t {
        FieldType::String | FieldType::Text => "string-decode",
        FieldType::Int => "int-decode",
        FieldType::BigInt => "bigint-decode",
        FieldType::Float => "float-decode",
        FieldType::Bool => "bool-decode",
        FieldType::Uuid => "uuid-decode",
        FieldType::Timestamp => "timestamp-decode",
        FieldType::Decimal => "decimal-decode",
        FieldType::Json => "json-decode",
        FieldType::Binary => "bytes-decode",
    }
}

/// A JSON integer: non-negative values are `PosInt`, negative ones `NegInt`.
pub open spec fn int_number(n: i64) -> JsonNumberView {
    if n < 0 {
        JsonNumberView::NegInt(n)
    } else {
        JsonNumberView::PosInt(n as u64)
    }
}

fn json_int(n: i64) -> (r: JsonNumber)
    ensures
        number_view(r) == int_number(n),
{
    if n < 0 {
        JsonNumber::NegInt(n)
    } else {
        JsonNumber::PosInt(n as u64)
    }
}

/// The JSON value a fetched column of a field of type `t` becomes: UUIDs
/// as hyphenated text, timestamps as RFC 3339 text in UTC (`Z`), decimals as their
/// text (keeping precision), bytes as lowercase hex. A failed read, a
/// value of another native type, or an instant chrono cannot represent is
/// a type error naming the failed decode.
pub open spec fn decode_outcome(field: Seq<char>, t: FieldType, f: FetchedView) -> Result<JsonView, ConnectorErrorView> {
    let bad = Err(
        ConnectorErrorView::TypeMismatch(field, spec_field_type_label(t), spec_decode_label(t)),
    );
    match f {
        FetchedView::Failed => bad,
        FetchedView::Null => Ok(JsonView::Null),
        FetchedView::Value(c) => match (t, c) {
            (FieldType::String, CellView::Text(s)) => Ok(JsonView::String(s)),
            (FieldType::Text, CellView::Text(s)) => Ok(JsonView::String(s)),
            (FieldType::Int, CellView::Int(n)) => Ok(JsonView::Number(int_number(n as i64))),
            (FieldType::BigInt, CellView::BigInt(n)) => Ok(JsonView::Number(int_number(n))),
            (FieldType::Float, CellView::Float(Some(n))) => Ok(JsonView::Number(n)),
            (FieldType::Float, CellView::Float(None)) => Ok(JsonView::Null),
            (FieldType::Bool, CellView::Bool(b)) => Ok(JsonView::Bool(b)),
            (FieldType::Uuid, CellView::Uuid(u)) => Ok(JsonView::String(uuid_text(u))),
            (FieldType::Timestamp, CellView::Timestamp(secs, nanos)) => match instant_text(
                secs,
                nanos,
                iso_datetime_format(),
            ) {
                Some(s) => Ok(JsonView::String(s)),
                None => bad,
            },
            (FieldType::Decimal, CellView::Decimal(d)) => Ok(JsonView::String(decimal_display(d))),
            (FieldType::Json, CellView::Json(j)) => Ok(j),
            (FieldType::Binary, CellView::Bytes(b)) => Ok(JsonView::String(hex_lower(b))),
            _ => bad,
        },
    }
}

/// The result of a decode, by value.
pub open spec fn decode_result_view(r: Result<JsonValue, ConnectorError>) -> Result<JsonView, ConnectorErrorView> {
    match r {
        Ok(j) => Ok(json_view(j)),
        Err(e) => Err(e@),
    }
}

fn decode_failure(field_name: &str, field_type: FieldType) -> (e: ConnectorError)
    ensures
        e@ == ConnectorErrorView::TypeMismatch(
            field_name@,
            spec_field_type_label(field_type),
            spec_decode_label(field_type),
        ),
{
    ConnectorError::TypeMismatch {
        field: String::from_str(field_name),
        expected: String::from_str(field_type_label(field_type)),
        actual: String::from_str(decode_label(field_type)),
    }
}

/// Converts a fetched column of a field into the JSON value an artifact
/// row carries.
pub fn decode_column(field_name: &str, field_type: FieldType, fetched: Fetched) -> (r: Result<JsonValue, ConnectorError>)
    requires
        fetched.wf(),
    ensures
        decode_result_view(r) == decode_outcome(field_name@, field_type, fetched@),
{
    let cell = match fetched {
        Fetched::Failed => return Err(decode_failure(field_name, field_type)),
        Fetched::Null => {
            proof {
                lemma_json_view_top(JsonValue::Null);
            }
            return Ok(JsonValue::Null);
        },
        Fetched::Value(c) => c,
    };
    proof {
        lemma_json_view_top(JsonValue::Null);
    }
    let out = match (field_type, cell) {
        (FieldType::String, Cell::Text(s)) => JsonValue::String(s),
        (FieldType::Text, Cell::Text(s)) => JsonValue::String(s),
        (FieldType::Int, Cell::Int(n)) => JsonValue::Number(json_int(n as i64)),
        (FieldType::BigInt, Cell::BigInt(n)) => JsonValue::Number(json_int(n)),
        (FieldType::Float, Cell::Float(Some(n))) => JsonValue::Number(n),
        (FieldType::Float, Cell::Float(None)) => JsonValue::Null,
        (FieldType::Bool, Cell::Bool(b)) => JsonValue::Bool(b),
        (FieldType::Uuid, Cell::Uuid(u)) => JsonValue::String(uuid_string(u)),
        (FieldType::Timestamp, Cell::Timestamp(secs, nanos)) => match format_instant(
            secs,
            nanos,
            "%Y-%m-%dT%H:%M:%S%.fZ",
        ) {
            Some(s) => JsonValue::String(s),
            None => return Err(decode_failure(field_name, field_type)),
        },
        (FieldType::Decimal, Cell::Decimal(d)) => JsonValue::String(decimal_string(d)),
        (FieldType::Json, Cell::Json(j)) => j,
        (FieldType::Binary, Cell::Bytes(b)) => JsonValue::String(hex_encode(&b)),
        _ => return Err(decode_failure(field_name, field_type)),
    };
    proof {
        lemma_json_view_top(out);
    }
    Ok(out)
}


/// A bind value of the kind a field type binds as.
pub open spec fn bind_kind_fits(t: FieldType, b: BindValueView) -> bool {
    match (t, b) {
        (FieldType::String, BindValueView::String(_)) => true,
        (FieldType::Text, BindValueView::String(_)) => true,
        (FieldType::Int, BindValueView::I32(_)) => true,
        (FieldType::BigInt, BindValueView::I64(_)) => true,
        (FieldType::Float, BindValueView::F64(_)) => true,
        (FieldType::Bool, BindValueView::Bool(_)) => true,
        (FieldType::Uuid, BindValueView::Uuid(_)) => true,
        (FieldType::Timestamp, BindValueView::Timestamp(_, _)) => true,
        (FieldType::Decimal, BindValueView::Decimal(_)) => true,
        (FieldType::Json, BindValueView::Json(_)) => true,
        (FieldType::Binary, BindValueView::Bytes(_)) => true,
        _ => false,
    }
}

/// No coercion away from the declared type: a converted value is `NULL`
/// (exactly when the wire value is `null`) or of the field type's kind,
/// and a refusal is always the type mismatch naming the field, its type
/// and the kind of value seen.
pub proof fn lemma_bind_respects_field_type(field: Seq<char>, t: FieldType, v: JsonView)
    ensures
        bind_outcome(field, t, v) matches Ok(b) ==> (b is Null <==> v is Null) && (!(b is Null) ==> bind_kind_fits(t, b)),
        bind_outcome(field, t, v) matches Err(e) ==> e == mismatch_view(field, t, v),
{
}

/// A decoded column is `null` or of the field type's JSON shape, and a
/// failed decode is always the type mismatch naming the field and type.
pub proof fn lemma_decode_respects_field_type(field: Seq<char>, t: FieldType, f: FetchedView)
    ensures
        decode_outcome(field, t, f) matches Ok(j) ==> j is Null || match t {
            FieldType::Int | FieldType::BigInt | FieldType::Float => j is Number,
            FieldType::Bool => j is Bool,
            FieldType::Json => true,
            _ => j is String,
        },
        decode_outcome(field, t, f) matches Err(e) ==> e == ConnectorErrorView::TypeMismatch(
            field,
            spec_field_type_label(t),
            spec_decode_label(t),
        ),
{
}

/// The column value a stored bind value reads back as: the same native
/// value (`NULL` for `NULL`).
pub open spec fn stored_cell(b: BindValueView) -> FetchedView {
    match b {
        BindValueView::Null => FetchedView::Null,
        BindValueView::String(s) => FetchedView::Value(CellView::Text(s)),
        BindValueView::I32(n) => FetchedView::Value(CellView::Int(n)),
        BindValueView::I64(n) => FetchedView::Value(CellView::BigInt(n)),
        BindValueView::F64(n) => FetchedView::Value(CellView::Float(Some(n))),
        BindValueView::Bool(x) => FetchedView::Value(CellView::Bool(x)),
        BindValueView::Uuid(u) => FetchedView::Value(CellView::Uuid(u)),
        BindValueView::Timestamp(secs, nanos) => FetchedView::Value(CellView::Timestamp(secs, nanos)),
        BindValueView::Decimal(d) => FetchedView::Value(CellView::Decimal(d)),
        BindValueView::Json(j) => FetchedView::Value(CellView::Json(j)),
        BindValueView::Bytes(b) => FetchedView::Value(CellView::Bytes(b)),
    }
}

/// A lowercase hexadecimal digit.
pub open spec fn is_lower_hex_char(c: char) -> bool {
    ('0' <= c && c <= '9') || ('a' <= c && c <= 'f')
}

proof fn lemma_lower_hex_digit_of_val(c: char)
    requires
        is_lower_hex_char(c),
    ensures
        lower_hex_digit(hex_val(c)) == c,
{
    let digits = seq!['0', '1', '2', '3', '4', '5', '6', '7', '8', '9', 'a', 'b', 'c', 'd', 'e', 'f'];
    assert(lower_hex_digit(hex_val(c)) == digits[hex_val(c)]);
    if '0' <= c && c <= '9' {
        assert(digits[c as int - '0' as int] == c) by {
            assert(c == '0' || c == '1' || c == '2' || c == '3' || c == '4' || c == '5' || c == '6' || c == '7'
                || c == '8' || c == '9') by {
                assert(('0' as int) <= (c as int) <= ('9' as int));
            }
        }
    } else {
        assert(digits[c as int - 'a' as int + 10] == c) by {
            assert(c == 'a' || c == 'b' || c == 'c' || c == 'd' || c == 'e' || c == 'f') by {
                assert(('a' as int) <= (c as int) <= ('f' as int));
            }
        }
    }
}

proof fn lemma_lower_hex_round_trip(s: Seq<char>)
    requires
        hex_decodable(s),
        forall|i: int| 0 <= i < s.len() ==> is_lower_hex_char(#[trigger] s[i]),
    ensures
        hex_lower(hex_bytes(s)) == s,
{
    let b = hex_bytes(s);
    assert forall|i: int| 0 <= i < s.len() implies #[trigger] hex_lower(b)[i] == s[i] by {
        let k = i / 2;
        let hi = hex_val(s[2 * k]);
        let lo = hex_val(s[2 * k + 1]);
        assert(0 <= k < b.len()) by {
            assert(s.len() % 2 == 0);
        }
        assert(0 <= hi < 16 && 0 <= lo < 16) by {
            assert(is_lower_hex_char(s[2 * k]));
            assert(is_lower_hex_char(s[2 * k + 1]));
        }
        assert(b[k] as int == hi * 16 + lo) by {
            assert(0 <= hi * 16 + lo < 256) by (nonlinear_arith)
                requires
                    0 <= hi < 16,
                    0 <= lo < 16,
            ;
        }
        assert((hi * 16 + lo) / 16 == hi && (hi * 16 + lo) % 16 == lo) by (nonlinear_arith)
            requires
                0 <= hi < 16,
                0 <= lo < 16,
        ;
        if i % 2 == 0 {
            assert(i == 2 * k);
            lemma_lower_hex_digit_of_val(s[2 * k]);
        } else {
            assert(i == 2 * k + 1);
            lemma_lower_hex_digit_of_val(s[2 * k + 1]);
        }
    }
    assert(hex_lower(b) =~= s);
}

/// What a read gives back of a write: for a string, text, integer,
/// boolean, JSON or binary field, a value that binds, once stored in its
/// column, decodes back to the JSON value that was bound. Integers are
/// taken in the canonical form (a negative-integer number is negative)
/// and binary values as lowercase hexadecimal, which is what a read
/// renders.
pub proof fn lemma_read_gives_back_write(field: Seq<char>, t: FieldType, v: JsonView)
    requires
        t is String || t is Text || t is Int || t is BigInt || t is Bool || t is Json || t is Binary,
        v matches JsonView::Number(JsonNumberView::NegInt(i)) ==> i < 0,
        t is Binary && v is String ==> forall|i: int|
            0 <= i < v->String_0.len() ==> is_lower_hex_char(#[trigger] v->String_0[i]),
        bind_outcome(field, t, v) is Ok,
    ensures
        decode_outcome(field, t, stored_cell(bind_outcome(field, t, v)->Ok_0)) == Ok::<JsonView, ConnectorErrorView>(v),
{
    if !(v is Null) && t is Binary {
        if let JsonView::String(s) = v {
            assert(hex_decodable(s));
            lemma_lower_hex_round_trip(s);
        }
    }
}

/// A float field binds every JSON number, unchanged, and refuses exactly
/// the values that are neither `null` nor a number.
pub proof fn lemma_float_binds_every_number(field: Seq<char>, v: JsonView)
    ensures
        v is Number ==> bind_outcome(field, FieldType::Float, v) == Ok::<BindValueView, ConnectorErrorView>(
            BindValueView::F64(v->Number_0),
        ),
        v is Null ==> bind_outcome(field, FieldType::Float, v) == Ok::<BindValueView, ConnectorErrorView>(
            BindValueView::Null,
        ),
        bind_outcome(field, FieldType::Float, v) is Err <==> !(v is Null) && !(v is Number),
{
}

/// A float column decodes to the number it holds, and to `null` when it
/// holds SQL `NULL` or a value with no JSON number (not finite).
pub proof fn lemma_float_decodes_to_its_number(field: Seq<char>, n: JsonNumberView)
    ensures
        decode_outcome(field, FieldType::Float, FetchedView::Value(CellView::Float(Some(n))))
            == Ok::<JsonView, ConnectorErrorView>(JsonView::Number(n)),
        decode_outcome(field, FieldType::Float, FetchedView::Value(CellView::Float(None)))
            == Ok::<JsonView, ConnectorErrorView>(JsonView::Null),
        decode_outcome(field, FieldType::Float, FetchedView::Null) == Ok::<JsonView, ConnectorErrorView>(JsonView::Null),
{
}

} // verus!

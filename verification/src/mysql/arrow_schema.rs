//! MySQL ↔ Arrow type mapping, and the column buffers rows are collected
//! into before they become Arrow arrays.
//!
//! Coverage: the common MySQL 8 base types. An unknown type is a typed
//! error, so the operator sees the unsupported column and can narrow the
//! table's scope.

use datafusion::arrow::datatypes::{validate_decimal_precision_and_scale, Decimal128Type};
use vstd::arithmetic::power::pow;
use vstd::prelude::*;
use vstd::string::StringExecFns;

use crate::connector::errors::{ConnectorError, ConnectorErrorView};
use crate::mysql::types::signed_decimal_text;
use crate::text::{debug_quoted, push_char, push_decimal, quote_debug, str_eq, decimal_text};
use crate::values::{decimal_display, decimal_string, DecimalValue};

verus! {

/// The Arrow data types the connector produces.
#[derive(Debug, Clone, Copy, PartialEq, Eq, Structural)]
pub enum ArrowType {
    Boolean,
    Int8,
    Int16,
    Int32,
    Int64,
    UInt32,
    Float32,
    Float64,
    /// Precision and scale.
    Decimal128(u8, i8),
    Date32,
    /// Microseconds since the epoch, no time zone.
    TimestampMicros,
    Utf8,
    LargeBinary,
}

/// An Arrow field: name, type and nullability.
#[derive(Debug)]
pub struct ArrowField {
    pub name: String,
    pub data_type: ArrowType,
    pub nullable: bool,
}

/// A column as `INFORMATION_SCHEMA.COLUMNS` describes it.
#[derive(Debug)]
pub struct MysqlColumn {
    /// Column name as it appears in MySQL.
    pub name: String,
    /// `data_type` (e.g. `varchar`, `bigint`, `decimal`), lowercase.
    pub data_type: String,
    /// `column_type`, the full type (e.g. `decimal(10,2)`, `tinyint(1)`).
    pub column_type: String,
    /// True when the column allows `NULL`.
    pub nullable: bool,
    /// For DECIMAL columns.
    pub decimal_precision: Option<u8>,
    /// For DECIMAL columns.
    pub decimal_scale: Option<i8>,
}

impl Clone for MysqlColumn {
    fn clone(&self) -> (r: Self)
        ensures
            r == *self,
    {
        MysqlColumn {
            name: self.name.clone(),
            data_type: self.data_type.clone(),
            column_type: self.column_type.clone(),
            nullable: self.nullable,
            decimal_precision: self.decimal_precision,
            decimal_scale: self.decimal_scale,
        }
    }
}

/// The Arrow type of a MySQL column type: `TINYINT(1)` is a boolean,
/// decimals keep their precision and scale (default 38 and 0), text-like
/// types are UTF-8 and binary-like types large binary.
pub open spec fn spec_arrow_type(dt: Seq<char>, ct: Seq<char>, precision: Option<u8>, scale: Option<i8>) -> Option<ArrowType> {
    if dt == "tinyint"@ {
        if ct == "tinyint(1)"@ {
            Some(ArrowType::Boolean)
        } else {
            Some(ArrowType::Int8)
        }
    } else if dt == "smallint"@ {
        Some(ArrowType::Int16)
    } else if dt == "mediumint"@ || dt == "int"@ || dt == "integer"@ {
        Some(ArrowType::Int32)
    } else if dt == "bigint"@ {
        Some(ArrowType::Int64)
    } else if dt == "year"@ {
        Some(ArrowType::UInt32)
    } else if dt == "float"@ {
        Some(ArrowType::Float32)
    } else if dt == "double"@ || dt == "real"@ {
        Some(ArrowType::Float64)
    } else if dt == "decimal"@ || dt == "numeric"@ {
        Some(
            ArrowType::Decimal128(
                match precision {
                    Some(p) => p,
                    None => 38,
                },
                match scale {
                    Some(s) => s,
                    None => 0,
                },
            ),
        )
    } else if dt == "date"@ {
        Some(ArrowType::Date32)
    } else if dt == "datetime"@ || dt == "timestamp"@ {
        Some(ArrowType::TimestampMicros)
    } else if dt == "char"@ || dt == "varchar"@ || dt == "text"@ || dt == "tinytext"@ || dt
        == "mediumtext"@ || dt == "longtext"@ || dt == "enum"@ || dt == "set"@ || dt == "json"@ {
        Some(ArrowType::Utf8)
    } else if dt == "binary"@ || dt == "varbinary"@ || dt == "blob"@ || dt == "tinyblob"@ || dt
        == "mediumblob"@ || dt == "longblob"@ || dt == "geometry"@ {
        Some(ArrowType::LargeBinary)
    } else {
        None
    }
}

/// The message for a column of an unsupported type.
pub open spec fn unsupported_type_text(name: Seq<char>, dt: Seq<char>, ct: Seq<char>) -> Seq<char> {
    "MySQL column "@ + debug_quoted(name) + ": unsupported data_type "@ + debug_quoted(dt)
        + " (column_type "@ + debug_quoted(ct)
        + "). Narrow the source access scope to exclude this column or wait for a connector update that supports it."@
}

impl MysqlColumn {
    /// The Arrow type of this column, or the unsupported-type error.
    pub open spec fn arrow_type_outcome(&self) -> Result<ArrowType, ConnectorErrorView> {
        match spec_arrow_type(self.data_type@, self.column_type@, self.decimal_precision, self.decimal_scale) {
            Some(t) => Ok(t),
            None => Err(
                ConnectorErrorView::Backend(
                    unsupported_type_text(self.name@, self.data_type@, self.column_type@),
                ),
            ),
        }
    }

    /// The Arrow field describing this column.
    pub fn arrow_field(&self) -> (r: Result<ArrowField, ConnectorError>)
        ensures
            match self.arrow_type_outcome() {
                Ok(t) => r matches Ok(f) && f.name@ == self.name@ && f.data_type == t && f.nullable
                    == self.nullable,
                Err(e) => r matches Err(x) && x@ == e,
            },
    {
        let dt = match self.arrow_data_type() {
            Ok(t) => t,
            Err(e) => return Err(e),
        };
        Ok(ArrowField { name: self.name.clone(), data_type: dt, nullable: self.nullable })
    }

    /// The Arrow type of this column.
    pub fn arrow_data_type(&self) -> (r: Result<ArrowType, ConnectorError>)
        ensures
            match self.arrow_type_outcome() {
                Ok(t) => r == Ok::<ArrowType, ConnectorError>(t),
                Err(e) => r matches Err(x) && x@ == e,
            },
    {
        let dt = self.data_type.as_str();
        if str_eq(dt, "tinyint") {
            if str_eq(self.column_type.as_str(), "tinyint(1)") {
                Ok(ArrowType::Boolean)
            } else {
                Ok(ArrowType::Int8)
            }
        } else if str_eq(dt, "smallint") {
            Ok(ArrowType::Int16)
        } else if str_eq(dt, "mediumint") || str_eq(dt, "int") || str_eq(dt, "integer") {
            Ok(ArrowType::Int32)
        } else if str_eq(dt, "bigint") {
            Ok(ArrowType::Int64)
        } else if str_eq(dt, "year") {
            Ok(ArrowType::UInt32)
        } else if str_eq(dt, "float") {
            Ok(ArrowType::Float32)
        } else if str_eq(dt, "double") || str_eq(dt, "real") {
            Ok(ArrowType::Float64)
        } else if str_eq(dt, "decimal") || str_eq(dt, "numeric") {
            let precision = match self.decimal_precision {
                Some(p) => p,
                None => 38,
            };
            let scale = match self.decimal_scale {
                Some(s) => s,
                None => 0,
            };
            Ok(ArrowType::Decimal128(precision, scale))
        } else if str_eq(dt, "date") {
            Ok(ArrowType::Date32)
        } else if str_eq(dt, "datetime") || str_eq(dt, "timestamp") {
            Ok(ArrowType::TimestampMicros)
        } else if str_eq(dt, "char") || str_eq(dt, "varchar") || str_eq(dt, "text") || str_eq(dt, "tinytext")
            || str_eq(dt, "mediumtext") || str_eq(dt, "longtext") || str_eq(dt, "enum") || str_eq(dt, "set")
            || str_eq(dt, "json") {
            Ok(ArrowType::Utf8)
        } else if str_eq(dt, "binary") || str_eq(dt, "varbinary") || str_eq(dt, "blob") || str_eq(dt, "tinyblob")
            || str_eq(dt, "mediumblob") || str_eq(dt, "longblob") || str_eq(dt, "geometry") {
            Ok(ArrowType::LargeBinary)
        } else {
            let mut m = String::from_str("MySQL column ");
            m.append(quote_debug(self.name.as_str()).as_str());
            m.append(": unsupported data_type ");
            m.append(quote_debug(dt).as_str());
            m.append(" (column_type ");
            m.append(quote_debug(self.column_type.as_str()).as_str());
            m.append(
                "). Narrow the source access scope to exclude this column or wait for a connector update that supports it.",
            );
            Err(ConnectorError::Backend(m))
        }
    }
}


/// The values collected for one column, one slot per row (`None` for
/// SQL `NULL`), by Arrow type. Floats are kept as their IEEE bit patterns;
/// a decimal column keeps its precision and scale, and every value is
/// stored at that scale.
#[derive(Debug)]
pub enum ArrayBuilderHandle {
    Boolean(Vec<Option<bool>>),
    Int8(Vec<Option<i8>>),
    Int16(Vec<Option<i16>>),
    Int32(Vec<Option<i32>>),
    Int64(Vec<Option<i64>>),
    UInt32(Vec<Option<u32>>),
    Float32(Vec<Option<u32>>),
    Float64(Vec<Option<u64>>),
    Decimal128(Vec<Option<i128>>, u8, i8),
    Date32(Vec<Option<i32>>),
    TimestampMicros(Vec<Option<i64>>),
    Utf8(Vec<Option<String>>),
    LargeBinary(Vec<Option<Vec<u8>>>),
}

/// A column buffer, by value.
pub enum BuilderView {
    Boolean(Seq<Option<bool>>),
    Int8(Seq<Option<i8>>),
    Int16(Seq<Option<i16>>),
    Int32(Seq<Option<i32>>),
    Int64(Seq<Option<i64>>),
    UInt32(Seq<Option<u32>>),
    Float32(Seq<Option<u32>>),
    Float64(Seq<Option<u64>>),
    Decimal128(Seq<Option<i128>>, u8, i8),
    Date32(Seq<Option<i32>>),
    TimestampMicros(Seq<Option<i64>>),
    Utf8(Seq<Option<Seq<char>>>),
    LargeBinary(Seq<Option<Seq<u8>>>),
}

/// Optional strings, by value.
pub open spec fn text_slots(v: Seq<Option<String>>) -> Seq<Option<Seq<char>>> {
    v.map_values(
        |o: Option<String>|
            match o {
                Some(s) => Some(s@),
                None => None,
            },
    )
}

/// Optional byte strings, by value.
pub open spec fn byte_slots(v: Seq<Option<Vec<u8>>>) -> Seq<Option<Seq<u8>>> {
    v.map_values(
        |o: Option<Vec<u8>>|
            match o {
                Some(b) => Some(b@),
                None => None,
            },
    )
}

impl View for ArrayBuilderHandle {
    type V = BuilderView;

    open spec fn view(&self) -> BuilderView {
        match self {
            ArrayBuilderHandle::Boolean(v) => BuilderView::Boolean(v@),
            ArrayBuilderHandle::Int8(v) => BuilderView::Int8(v@),
            ArrayBuilderHandle::Int16(v) => BuilderView::Int16(v@),
            ArrayBuilderHandle::Int32(v) => BuilderView::Int32(v@),
            ArrayBuilderHandle::Int64(v) => BuilderView::Int64(v@),
            ArrayBuilderHandle::UInt32(v) => BuilderView::UInt32(v@),
            ArrayBuilderHandle::Float32(v) => BuilderView::Float32(v@),
            ArrayBuilderHandle::Float64(v) => BuilderView::Float64(v@),
            ArrayBuilderHandle::Decimal128(v, p, s) => BuilderView::Decimal128(v@, *p, *s),
            ArrayBuilderHandle::Date32(v) => BuilderView::Date32(v@),
            ArrayBuilderHandle::TimestampMicros(v) => BuilderView::TimestampMicros(v@),
            ArrayBuilderHandle::Utf8(v) => BuilderView::Utf8(text_slots(v@)),
            ArrayBuilderHandle::LargeBinary(v) => BuilderView::LargeBinary(byte_slots(v@)),
        }
    }
}

/// What the Arrow validation of a Decimal128 precision and scale reports,
/// when it refuses them: a zero precision, a precision above 38, a scale
/// above 38, or a positive scale above the precision, checked in that
/// order, each as an invalid-argument error.
pub open spec fn decimal128_params_error(precision: u8, scale: i8) -> Option<Seq<char>> {
    let pre = "Invalid argument error: "@;
    if precision == 0 {
        Some(pre + "precision cannot be 0, has to be between [1, 38]"@)
    } else if precision > 38 {
        Some(pre + "precision "@ + decimal_text(precision as nat) + " is greater than max 38"@)
    } else if scale > 38 {
        Some(pre + "scale "@ + decimal_text(scale as nat) + " is greater than max 38"@)
    } else if scale > 0 && scale > precision {
        Some(pre + "scale "@ + decimal_text(scale as nat) + " is greater than precision "@ + decimal_text(
            precision as nat,
        ))
    } else {
        None
    }
}

/// Validates a Decimal128 precision and scale
/// (`validate_decimal_precision_and_scale::<Decimal128Type>`): `None` when
/// they are accepted, otherwise the error's display text (see
/// `decimal128_params_error`).
#[verifier::external_body]
fn decimal128_check(precision: u8, scale: i8) -> (r: Option<String>)
    ensures
        match r {
            Some(t) => decimal128_params_error(precision, scale) == Some(t@),
            None => decimal128_params_error(precision, scale) is None,
        },
{
    match validate_decimal_precision_and_scale::<Decimal128Type>(precision, scale) {
        Ok(()) => None,
        Err(e) => Some(e.to_string()),
    }
}

/// An empty buffer of an Arrow type; a decimal type's precision and scale
/// must be valid for Arrow.
pub open spec fn empty_builder(t: ArrowType) -> Result<BuilderView, ConnectorErrorView> {
    match t {
        ArrowType::Boolean => Ok(BuilderView::Boolean(Seq::empty())),
        ArrowType::Int8 => Ok(BuilderView::Int8(Seq::empty())),
        ArrowType::Int16 => Ok(BuilderView::Int16(Seq::empty())),
        ArrowType::Int32 => Ok(BuilderView::Int32(Seq::empty())),
        ArrowType::Int64 => Ok(BuilderView::Int64(Seq::empty())),
        ArrowType::UInt32 => Ok(BuilderView::UInt32(Seq::empty())),
        ArrowType::Float32 => Ok(BuilderView::Float32(Seq::empty())),
        ArrowType::Float64 => Ok(BuilderView::Float64(Seq::empty())),
        ArrowType::Decimal128(p, s) => match decimal128_params_error(p, s) {
            Some(e) => Err(ConnectorErrorView::Backend("decimal builder init failed: "@ + e)),
            None => Ok(BuilderView::Decimal128(Seq::empty(), p, s)),
        },
        ArrowType::Date32 => Ok(BuilderView::Date32(Seq::empty())),
        ArrowType::TimestampMicros => Ok(BuilderView::TimestampMicros(Seq::empty())),
        ArrowType::Utf8 => Ok(BuilderView::Utf8(Seq::empty())),
        ArrowType::LargeBinary => Ok(BuilderView::LargeBinary(Seq::empty())),
    }
}

impl ArrayBuilderHandle {
    /// A fresh buffer for `dt` with room for `capacity` rows.
    pub fn for_data_type(dt: &ArrowType, capacity: usize) -> (r: Result<Self, ConnectorError>)
        ensures
            match empty_builder(*dt) {
                Ok(b) => r matches Ok(x) && x@ == b,
                Err(e) => r matches Err(x) && x@ == e,
            },
    {
        match *dt {
            ArrowType::Boolean => Ok(ArrayBuilderHandle::Boolean(Vec::with_capacity(capacity))),
            ArrowType::Int8 => Ok(ArrayBuilderHandle::Int8(Vec::with_capacity(capacity))),
            ArrowType::Int16 => Ok(ArrayBuilderHandle::Int16(Vec::with_capacity(capacity))),
            ArrowType::Int32 => Ok(ArrayBuilderHandle::Int32(Vec::with_capacity(capacity))),
            ArrowType::Int64 => Ok(ArrayBuilderHandle::Int64(Vec::with_capacity(capacity))),
            ArrowType::UInt32 => Ok(ArrayBuilderHandle::UInt32(Vec::with_capacity(capacity))),
            ArrowType::Float32 => Ok(ArrayBuilderHandle::Float32(Vec::with_capacity(capacity))),
            ArrowType::Float64 => Ok(ArrayBuilderHandle::Float64(Vec::with_capacity(capacity))),
            ArrowType::Decimal128(p, s) => match decimal128_check(p, s) {
                Some(e) => {
                    let mut m = String::from_str("decimal builder init failed: ");
                    m.append(e.as_str());
                    Err(ConnectorError::Backend(m))
                },
                None => Ok(ArrayBuilderHandle::Decimal128(Vec::with_capacity(capacity), p, s)),
            },
            ArrowType::Date32 => Ok(ArrayBuilderHandle::Date32(Vec::with_capacity(capacity))),
            ArrowType::TimestampMicros => Ok(ArrayBuilderHandle::TimestampMicros(Vec::with_capacity(capacity))),
            ArrowType::Utf8 => {
                let v: Vec<Option<String>> = Vec::with_capacity(capacity);
                proof {
                    assert(text_slots(v@) =~= Seq::<Option<Seq<char>>>::empty());
                }
                Ok(ArrayBuilderHandle::Utf8(v))
            },
            ArrowType::LargeBinary => {
                let v: Vec<Option<Vec<u8>>> = Vec::with_capacity(capacity);
                proof {
                    assert(byte_slots(v@) =~= Seq::<Option<Seq<u8>>>::empty());
                }
                Ok(ArrayBuilderHandle::LargeBinary(v))
            },
        }
    }
}

/// One column value of a row, as the driver decoded it for the column's
/// Arrow type: floats as IEEE bit patterns, dates as days since the epoch,
/// timestamps as microseconds since the epoch.
#[derive(Debug)]
pub enum ArrowCell {
    Bool(bool),
    I8(i8),
    I16(i16),
    I32(i32),
    I64(i64),
    U32(u32),
    F32Bits(u32),
    F64Bits(u64),
    Decimal(DecimalValue),
    Date(i64),
    TimestampMicros(i64),
    Text(String),
    Bytes(Vec<u8>),
}

/// A row value, by value.
pub enum ArrowCellView {
    Bool(bool),
    I8(i8),
    I16(i16),
    I32(i32),
    I64(i64),
    U32(u32),
    F32Bits(u32),
    F64Bits(u64),
    Decimal(DecimalValue),
    Date(i64),
    TimestampMicros(i64),
    Text(Seq<char>),
    Bytes(Seq<u8>),
}

impl View for ArrowCell {
    type V = ArrowCellView;

    open spec fn view(&self) -> ArrowCellView {
        match self {
            ArrowCell::Bool(x) => ArrowCellView::Bool(*x),
            ArrowCell::I8(x) => ArrowCellView::I8(*x),
            ArrowCell::I16(x) => ArrowCellView::I16(*x),
            ArrowCell::I32(x) => ArrowCellView::I32(*x),
            ArrowCell::I64(x) => ArrowCellView::I64(*x),
            ArrowCell::U32(x) => ArrowCellView::U32(*x),
            ArrowCell::F32Bits(x) => ArrowCellView::F32Bits(*x),
            ArrowCell::F64Bits(x) => ArrowCellView::F64Bits(*x),
            ArrowCell::Decimal(d) => ArrowCellView::Decimal(*d),
            ArrowCell::Date(x) => ArrowCellView::Date(*x),
            ArrowCell::TimestampMicros(x) => ArrowCellView::TimestampMicros(*x),
            ArrowCell::Text(s) => ArrowCellView::Text(s@),
            ArrowCell::Bytes(b) => ArrowCellView::Bytes(b@),
        }
    }
}

/// What reading a column of a row gave, by value: the driver's error
/// text, SQL `NULL`, or a value.
pub open spec fn read_view(r: Result<Option<ArrowCell>, String>) -> Result<Option<ArrowCellView>, Seq<char>> {
    match r {
        Ok(Some(c)) => Ok(Some(c@)),
        Ok(None) => Ok(None),
        Err(m) => Err(m@),
    }
}

/// A row value is of the native type the buffer's Arrow type is read as.
pub open spec fn cell_fits(b: BuilderView, c: ArrowCellView) -> bool {
    match (b, c) {
        (BuilderView::Boolean(_), ArrowCellView::Bool(_)) => true,
        (BuilderView::Int8(_), ArrowCellView::I8(_)) => true,
        (BuilderView::Int16(_), ArrowCellView::I16(_)) => true,
        (BuilderView::Int32(_), ArrowCellView::I32(_)) => true,
        (BuilderView::Int64(_), ArrowCellView::I64(_)) => true,
        (BuilderView::UInt32(_), ArrowCellView::U32(_)) => true,
        (BuilderView::Float32(_), ArrowCellView::F32Bits(_)) => true,
        (BuilderView::Float64(_), ArrowCellView::F64Bits(_)) => true,
        (BuilderView::Decimal128(_, _, s), ArrowCellView::Decimal(d)) => d.wf() && -38 <= s - d.scale <= 38,
        (BuilderView::Date32(_), ArrowCellView::Date(_)) => true,
        (BuilderView::TimestampMicros(_), ArrowCellView::TimestampMicros(_)) => true,
        (BuilderView::Utf8(_), ArrowCellView::Text(_)) => true,
        (BuilderView::LargeBinary(_), ArrowCellView::Bytes(_)) => true,
        _ => false,
    }
}

/// `a / b` rounded toward zero, as Rust's integer division does.
pub open spec fn trunc_div(a: int, b: int) -> int {
    if a >= 0 {
        a / b
    } else {
        -((-a) / b)
    }
}

/// A decimal re-scaled to a column's fixed scale: multiplied up (when it
/// still fits in an `i128`) or divided down, truncating.
pub open spec fn rescaled(d: DecimalValue, table_scale: i8) -> Option<int> {
    if d.scale <= table_scale {
        let x = d.mantissa() * pow(10, (table_scale - d.scale) as nat);
        if i128::MIN <= x <= i128::MAX {
            Some(x)
        } else {
            None
        }
    } else {
        Some(trunc_div(d.mantissa(), pow(10, (d.scale - table_scale) as nat)))
    }
}

/// The message for a decimal that overflows when scaled up.
pub open spec fn decimal_overflow_text(col: Seq<char>, d: DecimalValue, table_scale: i8) -> Seq<char> {
    col + ": "@ + "decimal overflow scaling "@ + decimal_display(d) + " up to scale "@ + signed_decimal_text(
        table_scale as int,
    )
}

/// The buffer after appending what a row gave for the column: the value
/// (a decimal re-scaled to the column's scale, a date's day count as an
/// `i32`), or a null slot; a read error is the column's backend error.
pub open spec fn append_outcome(
    col: Seq<char>,
    read: Result<Option<ArrowCellView>, Seq<char>>,
    b: BuilderView,
) -> Result<BuilderView, ConnectorErrorView> {
    match read {
        Err(m) => Err(ConnectorErrorView::Backend(col + ": "@ + m)),
        Ok(None) => Ok(
            match b {
                BuilderView::Boolean(v) => BuilderView::Boolean(v.push(None)),
                BuilderView::Int8(v) => BuilderView::Int8(v.push(None)),
                BuilderView::Int16(v) => BuilderView::Int16(v.push(None)),
                BuilderView::Int32(v) => BuilderView::Int32(v.push(None)),
                BuilderView::Int64(v) => BuilderView::Int64(v.push(None)),
                BuilderView::UInt32(v) => BuilderView::UInt32(v.push(None)),
                BuilderView::Float32(v) => BuilderView::Float32(v.push(None)),
                BuilderView::Float64(v) => BuilderView::Float64(v.push(None)),
                BuilderView::Decimal128(v, p, s) => BuilderView::Decimal128(v.push(None), p, s),
                BuilderView::Date32(v) => BuilderView::Date32(v.push(None)),
                BuilderView::TimestampMicros(v) => BuilderView::TimestampMicros(v.push(None)),
                BuilderView::Utf8(v) => BuilderView::Utf8(v.push(None)),
                BuilderView::LargeBinary(v) => BuilderView::LargeBinary(v.push(None)),
            },
        ),
        Ok(Some(c)) => match (b, c) {
            (BuilderView::Boolean(v), ArrowCellView::Bool(x)) => Ok(BuilderView::Boolean(v.push(Some(x)))),
            (BuilderView::Int8(v), ArrowCellView::I8(x)) => Ok(BuilderView::Int8(v.push(Some(x)))),
            (BuilderView::Int16(v), ArrowCellView::I16(x)) => Ok(BuilderView::Int16(v.push(Some(x)))),
            (BuilderView::Int32(v), ArrowCellView::I32(x)) => Ok(BuilderView::Int32(v.push(Some(x)))),
            (BuilderView::Int64(v), ArrowCellView::I64(x)) => Ok(BuilderView::Int64(v.push(Some(x)))),
            (BuilderView::UInt32(v), ArrowCellView::U32(x)) => Ok(BuilderView::UInt32(v.push(Some(x)))),
            (BuilderView::Float32(v), ArrowCellView::F32Bits(x)) => Ok(BuilderView::Float32(v.push(Some(x)))),
            (BuilderView::Float64(v), ArrowCellView::F64Bits(x)) => Ok(BuilderView::Float64(v.push(Some(x)))),
            (BuilderView::Decimal128(v, p, s), ArrowCellView::Decimal(d)) => match rescaled(d, s) {
                Some(x) => Ok(BuilderView::Decimal128(v.push(Some(x as i128)), p, s)),
                None => Err(ConnectorErrorView::Backend(decimal_overflow_text(col, d, s))),
            },
            (BuilderView::Date32(v), ArrowCellView::Date(x)) => Ok(BuilderView::Date32(v.push(Some(x as i32)))),
            (BuilderView::TimestampMicros(v), ArrowCellView::TimestampMicros(x)) => Ok(
                BuilderView::TimestampMicros(v.push(Some(x))),
            ),
            (BuilderView::Utf8(v), ArrowCellView::Text(x)) => Ok(BuilderView::Utf8(v.push(Some(x)))),
            (BuilderView::LargeBinary(v), ArrowCellView::Bytes(x)) => Ok(BuilderView::LargeBinary(v.push(Some(x)))),
            _ => Ok(b),
        },
    }
}

/// `10^n` for `n <= 38`.
fn pow10_i128(n: u32) -> (r: i128)
    requires
        n <= 38,
    ensures
        r == pow(10, n as nat),
{
    proof {
        reveal_with_fuel(pow, 38);
        assert(pow(10, 37) == 10000000000000000000000000000000000000int);
    }
    let mut r: i128 = 1;
    let mut i: u32 = 0;
    while i < n
        invariant
            i <= n <= 38,
            r == pow(10, i as nat),
            pow(10, 37) == 10000000000000000000000000000000000000int,
        decreases n - i,
    {
        proof {
            vstd::arithmetic::power::lemma_pow_increases(10, i as nat, 37);
            assert(r <= 10000000000000000000000000000000000000int);
            vstd::arithmetic::power::lemma_pow_positive(10, i as nat);
            assert(r > 0);
            reveal(pow);
            assert(pow(10, (i + 1) as nat) == 10 * pow(10, i as nat));
        }
        r = r * 10;
        i = i + 1;
    }
    r
}

/// Re-scales a decimal to a column's fixed scale (see `rescaled`).
fn rescale(d: DecimalValue, table_scale: i8) -> (r: Option<i128>)
    requires
        d.wf(),
        -38 <= table_scale - d.scale <= 38,
    ensures
        match rescaled(d, table_scale) {
            Some(x) => r == Some(x as i128) && i128::MIN <= x <= i128::MAX,
            None => r is None,
        },
{
    let value_scale: i32 = d.scale as i32;
    let ts: i32 = table_scale as i32;
    let m: i128 = if d.negative {
        -(d.magnitude as i128)
    } else {
        d.magnitude as i128
    };
    if value_scale <= ts {
        let p = pow10_i128((ts - value_scale) as u32);
        m.checked_mul(p)
    } else {
        let p = pow10_i128((value_scale - ts) as u32);
        proof {
            vstd::arithmetic::power::lemma_pow_positive(10, (value_scale - ts) as nat);
            assert(0 <= (if m >= 0 { m as int } else { -m as int }) / (p as int) <= (if m >= 0 { m as int } else { -m as int })) by (nonlinear_arith)
                requires
                    p > 0,
            ;
        }
        if m >= 0 {
            Some(m / p)
        } else {
            Some(-((-m) / p))
        }
    }
}

/// Appends what a row gave for a column to the column's buffer (see
/// `append_outcome`). On an error the buffer is unchanged.
pub fn append_value(col_name: &str, read: Result<Option<ArrowCell>, String>, builder: &mut ArrayBuilderHandle) -> (r: Result<(), ConnectorError>)
    requires
        read matches Ok(Some(c)) ==> cell_fits(old(builder)@, c@),
    ensures
        match append_outcome(col_name@, read_view(read), old(builder)@) {
            Ok(nb) => r is Ok && final(builder)@ == nb,
            Err(e) => r matches Err(x) && x@ == e && final(builder)@ == old(builder)@,
        },
{
    let cell = match read {
        Err(msg) => {
            let mut m = String::from_str(col_name);
            m.append(": ");
            m.append(msg.as_str());
            return Err(ConnectorError::Backend(m));
        },
        Ok(c) => c,
    };
    match cell {
        None => {
            match builder {
                ArrayBuilderHandle::Boolean(v) => v.push(None),
                ArrayBuilderHandle::Int8(v) => v.push(None),
                ArrayBuilderHandle::Int16(v) => v.push(None),
                ArrayBuilderHandle::Int32(v) => v.push(None),
                ArrayBuilderHandle::Int64(v) => v.push(None),
                ArrayBuilderHandle::UInt32(v) => v.push(None),
                ArrayBuilderHandle::Float32(v) => v.push(None),
                ArrayBuilderHandle::Float64(v) => v.push(None),
                ArrayBuilderHandle::Decimal128(v, _, _) => v.push(None),
                ArrayBuilderHandle::Date32(v) => v.push(None),
                ArrayBuilderHandle::TimestampMicros(v) => v.push(None),
                ArrayBuilderHandle::Utf8(v) => {
                    let ghost before = v@;
                    v.push(None);
                    proof {
                        assert(text_slots(v@) =~= text_slots(before).push(None));
                    }
                },
                ArrayBuilderHandle::LargeBinary(v) => {
                    let ghost before = v@;
                    v.push(None);
                    proof {
                        assert(byte_slots(v@) =~= byte_slots(before).push(None));
                    }
                },
            }
            Ok(())
        },
        Some(c) => {
            match (builder, c) {
                (ArrayBuilderHandle::Boolean(v), ArrowCell::Bool(x)) => v.push(Some(x)),
                (ArrayBuilderHandle::Int8(v), ArrowCell::I8(x)) => v.push(Some(x)),
                (ArrayBuilderHandle::Int16(v), ArrowCell::I16(x)) => v.push(Some(x)),
                (ArrayBuilderHandle::Int32(v), ArrowCell::I32(x)) => v.push(Some(x)),
                (ArrayBuilderHandle::Int64(v), ArrowCell::I64(x)) => v.push(Some(x)),
                (ArrayBuilderHandle::UInt32(v), ArrowCell::U32(x)) => v.push(Some(x)),
                (ArrayBuilderHandle::Float32(v), ArrowCell::F32Bits(x)) => v.push(Some(x)),
                (ArrayBuilderHandle::Float64(v), ArrowCell::F64Bits(x)) => v.push(Some(x)),
                (ArrayBuilderHandle::Decimal128(v, _, s), ArrowCell::Decimal(d)) => {
                    match rescale(d, *s) {
                        Some(x) => v.push(Some(x)),
                        None => {
                            let mut m = String::from_str(col_name);
                            m.append(": ");
                            m.append("decimal overflow scaling ");
                            m.append(decimal_string(d).as_str());
                            m.append(" up to scale ");
                            if *s < 0 {
                                push_char(&mut m, '-');
                                push_decimal(&mut m, (-(*s as i64)) as u64);
                            } else {
                                push_decimal(&mut m, *s as u64);
                            }
                            return Err(ConnectorError::Backend(m));
                        },
                    }
                },
                (ArrayBuilderHandle::Date32(v), ArrowCell::Date(x)) => v.push(Some(#[verifier::truncate] (x as i32))),
                (ArrayBuilderHandle::TimestampMicros(v), ArrowCell::TimestampMicros(x)) => v.push(Some(x)),
                (ArrayBuilderHandle::Utf8(v), ArrowCell::Text(x)) => {
                    let ghost before = v@;
                    let ghost xv = x@;
                    v.push(Some(x));
                    proof {
                        assert(text_slots(v@) =~= text_slots(before).push(Some(xv)));
                    }
                },
                (ArrayBuilderHandle::LargeBinary(v), ArrowCell::Bytes(x)) => {
                    let ghost before = v@;
                    let ghost xv = x@;
                    v.push(Some(x));
                    proof {
                        assert(byte_slots(v@) =~= byte_slots(before).push(Some(xv)));
                    }
                },
                _ => {},
            }
            Ok(())
        },
    }
}

/// The Arrow type each supported MySQL data type is exposed as:
/// `TINYINT(1)` a boolean and other `TINYINT`s 8-bit integers; `SMALLINT`,
/// `MEDIUMINT`/`INT`/`INTEGER` and `BIGINT` 16-, 32- and 64-bit integers;
/// `YEAR` an unsigned 32-bit integer; `FLOAT` 32-bit and `DOUBLE`/`REAL`
/// 64-bit floats; `DECIMAL`/`NUMERIC` a 128-bit decimal of the column's
/// precision and scale (38 and 0 by default); `DATE` a date; `DATETIME` and
/// `TIMESTAMP` microsecond timestamps; the text, enum, set and JSON types
/// UTF-8 text; the binary, blob and geometry types large binary.
pub proof fn lemma_mysql_type_table(ct: Seq<char>, p: Option<u8>, s: Option<i8>, pp: u8, ss: i8)
    ensures
        spec_arrow_type("tinyint"@, "tinyint(1)"@, p, s) == Some(ArrowType::Boolean),
        ct != "tinyint(1)"@ ==> spec_arrow_type("tinyint"@, ct, p, s) == Some(ArrowType::Int8),
        spec_arrow_type("smallint"@, ct, p, s) == Some(ArrowType::Int16),
        spec_arrow_type("mediumint"@, ct, p, s) == Some(ArrowType::Int32),
        spec_arrow_type("int"@, ct, p, s) == Some(ArrowType::Int32),
        spec_arrow_type("integer"@, ct, p, s) == Some(ArrowType::Int32),
        spec_arrow_type("bigint"@, ct, p, s) == Some(ArrowType::Int64),
        spec_arrow_type("year"@, ct, p, s) == Some(ArrowType::UInt32),
        spec_arrow_type("float"@, ct, p, s) == Some(ArrowType::Float32),
        spec_arrow_type("double"@, ct, p, s) == Some(ArrowType::Float64),
        spec_arrow_type("real"@, ct, p, s) == Some(ArrowType::Float64),
        spec_arrow_type("decimal"@, ct, Some(pp), Some(ss)) == Some(ArrowType::Decimal128(pp, ss)),
        spec_arrow_type("numeric"@, ct, Some(pp), Some(ss)) == Some(ArrowType::Decimal128(pp, ss)),
        spec_arrow_type("decimal"@, ct, None, None) == Some(ArrowType::Decimal128(38, 0)),
        spec_arrow_type("numeric"@, ct, None, None) == Some(ArrowType::Decimal128(38, 0)),
        spec_arrow_type("date"@, ct, p, s) == Some(ArrowType::Date32),
        spec_arrow_type("datetime"@, ct, p, s) == Some(ArrowType::TimestampMicros),
        spec_arrow_type("timestamp"@, ct, p, s) == Some(ArrowType::TimestampMicros),
        spec_arrow_type("char"@, ct, p, s) == Some(ArrowType::Utf8),
        spec_arrow_type("varchar"@, ct, p, s) == Some(ArrowType::Utf8),
        spec_arrow_type("text"@, ct, p, s) == Some(ArrowType::Utf8),
        spec_arrow_type("tinytext"@, ct, p, s) == Some(ArrowType::Utf8),
        spec_arrow_type("mediumtext"@, ct, p, s) == Some(ArrowType::Utf8),
        spec_arrow_type("longtext"@, ct, p, s) == Some(ArrowType::Utf8),
        spec_arrow_type("enum"@, ct, p, s) == Some(ArrowType::Utf8),
        spec_arrow_type("set"@, ct, p, s) == Some(ArrowType::Utf8),
        spec_arrow_type("json"@, ct, p, s) == Some(ArrowType::Utf8),
        spec_arrow_type("binary"@, ct, p, s) == Some(ArrowType::LargeBinary),
        spec_arrow_type("varbinary"@, ct, p, s) == Some(ArrowType::LargeBinary),
        spec_arrow_type("blob"@, ct, p, s) == Some(ArrowType::LargeBinary),
        spec_arrow_type("tinyblob"@, ct, p, s) == Some(ArrowType::LargeBinary),
        spec_arrow_type("mediumblob"@, ct, p, s) == Some(ArrowType::LargeBinary),
        spec_arrow_type("longblob"@, ct, p, s) == Some(ArrowType::LargeBinary),
        spec_arrow_type("geometry"@, ct, p, s) == Some(ArrowType::LargeBinary),
{
    reveal_strlit("tinyint");
    reveal_strlit("tinyint(1)");
    reveal_strlit("smallint");
    reveal_strlit("mediumint");
    reveal_strlit("int");
    reveal_strlit("integer");
    reveal_strlit("bigint");
    reveal_strlit("year");
    reveal_strlit("float");
    reveal_strlit("double");
    reveal_strlit("real");
    reveal_strlit("decimal");
    reveal_strlit("numeric");
    reveal_strlit("date");
    reveal_strlit("datetime");
    reveal_strlit("timestamp");
    reveal_strlit("char");
    reveal_strlit("varchar");
    reveal_strlit("text");
    reveal_strlit("tinytext");
    reveal_strlit("mediumtext");
    reveal_strlit("longtext");
    reveal_strlit("enum");
    reveal_strlit("set");
    reveal_strlit("json");
    reveal_strlit("binary");
    reveal_strlit("varbinary");
    reveal_strlit("blob");
    reveal_strlit("tinyblob");
    reveal_strlit("mediumblob");
    reveal_strlit("longblob");
    reveal_strlit("geometry");
    // The type names differ from one another in length or at a character.
    assert("tinyint"@.len() == 7);
    assert("smallint"@.len() == 8);
    assert("mediumint"@.len() == 9);
    assert("int"@.len() == 3);
    assert("integer"@.len() == 7);
    assert("bigint"@.len() == 6);
    assert("year"@.len() == 4);
    assert("float"@.len() == 5);
    assert("double"@.len() == 6);
    assert("real"@.len() == 4);
    assert("decimal"@.len() == 7);
    assert("numeric"@.len() == 7);
    assert("date"@.len() == 4);
    assert("datetime"@.len() == 8);
    assert("timestamp"@.len() == 9);
    assert("char"@.len() == 4);
    assert("varchar"@.len() == 7);
    assert("text"@.len() == 4);
    assert("tinytext"@.len() == 8);
    assert("mediumtext"@.len() == 10);
    assert("longtext"@.len() == 8);
    assert("enum"@.len() == 4);
    assert("set"@.len() == 3);
    assert("json"@.len() == 4);
    assert("binary"@.len() == 6);
    assert("varbinary"@.len() == 9);
    assert("blob"@.len() == 4);
    assert("tinyblob"@.len() == 8);
    assert("mediumblob"@.len() == 10);
    assert("longblob"@.len() == 8);
    assert("geometry"@.len() == 8);
    assert("integer"@[0] != "tinyint"@[0]);
    assert("double"@[0] != "bigint"@[0]);
    assert("real"@[0] != "year"@[0]);
    assert("decimal"@[0] != "tinyint"@[0]);
    assert("decimal"@[0] != "integer"@[0]);
    assert("numeric"@[0] != "tinyint"@[0]);
    assert("numeric"@[0] != "integer"@[0]);
    assert("numeric"@[0] != "decimal"@[0]);
    assert("date"@[0] != "year"@[0]);
    assert("date"@[0] != "real"@[0]);
    assert("datetime"@[0] != "smallint"@[0]);
    assert("timestamp"@[0] != "mediumint"@[0]);
    assert("char"@[0] != "year"@[0]);
    assert("char"@[0] != "real"@[0]);
    assert("char"@[0] != "date"@[0]);
    assert("varchar"@[0] != "tinyint"@[0]);
    assert("varchar"@[0] != "integer"@[0]);
    assert("varchar"@[0] != "decimal"@[0]);
    assert("varchar"@[0] != "numeric"@[0]);
    assert("text"@[0] != "year"@[0]);
    assert("text"@[0] != "real"@[0]);
    assert("text"@[0] != "date"@[0]);
    assert("text"@[0] != "char"@[0]);
    assert("tinytext"@[0] != "smallint"@[0]);
    assert("tinytext"@[0] != "datetime"@[0]);
    assert("longtext"@[0] != "smallint"@[0]);
    assert("longtext"@[0] != "datetime"@[0]);
    assert("longtext"@[0] != "tinytext"@[0]);
    assert("enum"@[0] != "year"@[0]);
    assert("enum"@[0] != "real"@[0]);
    assert("enum"@[0] != "date"@[0]);
    assert("enum"@[0] != "char"@[0]);
    assert("enum"@[0] != "text"@[0]);
    assert("set"@[0] != "int"@[0]);
    assert("json"@[0] != "year"@[0]);
    assert("json"@[0] != "real"@[0]);
    assert("json"@[0] != "date"@[0]);
    assert("json"@[0] != "char"@[0]);
    assert("json"@[0] != "text"@[0]);
    assert("json"@[0] != "enum"@[0]);
    assert("binary"@[2] != "bigint"@[2]);
    assert("binary"@[0] != "double"@[0]);
    assert("varbinary"@[0] != "mediumint"@[0]);
    assert("varbinary"@[0] != "timestamp"@[0]);
    assert("blob"@[0] != "year"@[0]);
    assert("blob"@[0] != "real"@[0]);
    assert("blob"@[0] != "date"@[0]);
    assert("blob"@[0] != "char"@[0]);
    assert("blob"@[0] != "text"@[0]);
    assert("blob"@[0] != "enum"@[0]);
    assert("blob"@[0] != "json"@[0]);
    assert("tinyblob"@[0] != "smallint"@[0]);
    assert("tinyblob"@[0] != "datetime"@[0]);
    assert("tinyblob"@[4] != "tinytext"@[4]);
    assert("tinyblob"@[0] != "longtext"@[0]);
    assert("mediumblob"@[6] != "mediumtext"@[6]);
    assert("longblob"@[0] != "smallint"@[0]);
    assert("longblob"@[0] != "datetime"@[0]);
    assert("longblob"@[0] != "tinytext"@[0]);
    assert("longblob"@[4] != "longtext"@[4]);
    assert("longblob"@[0] != "tinyblob"@[0]);
    assert("geometry"@[0] != "smallint"@[0]);
    assert("geometry"@[0] != "datetime"@[0]);
    assert("geometry"@[0] != "tinytext"@[0]);
    assert("geometry"@[0] != "longtext"@[0]);
    assert("geometry"@[0] != "tinyblob"@[0]);
    assert("geometry"@[0] != "longblob"@[0]);
}

} // verus!

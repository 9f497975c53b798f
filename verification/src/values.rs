//! Value codecs: hexadecimal, UUID text, decimal numbers and timestamps.
//!
//! The codecs themselves live in `hex`, `uuid`, `rust_decimal` and
//! `chrono`; this module states what each call gives back, in terms of
//! plain values, so that the connector's conversions can be proved.

use vstd::arithmetic::power::pow;
use vstd::prelude::*;

use crate::text::decimal_text;

verus! {

/// A decimal number as `rust_decimal::Decimal` holds it: a sign, a
/// magnitude of at most 96 bits and a scale (digits after the point, at
/// most 28). The value is `(-1)^negative * magnitude / 10^scale`.
#[derive(Debug, Clone, Copy, PartialEq, Eq, Structural)]
pub struct DecimalValue {
    /// Whether the sign bit is set (a negative zero is possible).
    pub negative: bool,
    /// The unsigned mantissa.
    pub magnitude: u128,
    /// The number of digits after the decimal point.
    pub scale: u32,
}

impl DecimalValue {
    /// The ranges `rust_decimal` keeps its parts in.
    pub open spec fn wf(self) -> bool {
        &&& self.magnitude < 0x1_0000_0000_0000_0000_0000_0000
        &&& self.scale <= 28
    }

    /// The signed mantissa.
    pub open spec fn mantissa(self) -> int {
        if self.negative {
            -(self.magnitude as int)
        } else {
            self.magnitude as int
        }
    }
}

/// The lowercase hexadecimal digit of `d` (`0 <= d < 16`).
pub open spec fn lower_hex_digit(d: int) -> char {
    seq!['0', '1', '2', '3', '4', '5', '6', '7', '8', '9', 'a', 'b', 'c', 'd', 'e', 'f'][d]
}

/// A hexadecimal digit, in either case.
pub open spec fn is_hex_char(c: char) -> bool {
    ('0' <= c && c <= '9') || ('a' <= c && c <= 'f') || ('A' <= c && c <= 'F')
}

/// The value of a hexadecimal digit.
pub open spec fn hex_val(c: char) -> int {
    if '0' <= c && c <= '9' {
        c as int - '0' as int
    } else if 'a' <= c && c <= 'f' {
        c as int - 'a' as int + 10
    } else {
        c as int - 'A' as int + 10
    }
}

/// Text that decodes as hexadecimal: an even number of hex digits.
pub open spec fn hex_decodable(s: Seq<char>) -> bool {
    &&& s.len() % 2 == 0
    &&& forall|i: int| 0 <= i < s.len() ==> is_hex_char(#[trigger] s[i])
}

/// The bytes a decodable hexadecimal text stands for, two digits a byte,
/// high nibble first.
pub open spec fn hex_bytes(s: Seq<char>) -> Seq<u8> {
    Seq::new(s.len() / 2, |i: int| (hex_val(s[2 * i]) * 16 + hex_val(s[2 * i + 1])) as u8)
}

/// The lowercase hexadecimal text of bytes, two digits a byte.
pub open spec fn hex_lower(b: Seq<u8>) -> Seq<char> {
    Seq::new(
        2 * b.len(),
        |i: int|
            if i % 2 == 0 {
                lower_hex_digit(b[i / 2] as int / 16)
            } else {
                lower_hex_digit(b[i / 2] as int % 16)
            },
    )
}

/// The 32 lowercase hexadecimal digits of a 128-bit value, most
/// significant first.
pub open spec fn hex32(u: u128) -> Seq<char> {
    Seq::new(32, |i: int| lower_hex_digit((u as int / pow(16, (31 - i) as nat)) % 16))
}

/// The hyphenated text of a UUID: `xxxxxxxx-xxxx-xxxx-xxxx-xxxxxxxxxxxx`.
pub open spec fn uuid_text(u: u128) -> Seq<char> {
    let d = hex32(u);
    d.subrange(0, 8) + seq!['-'] + d.subrange(8, 12) + seq!['-'] + d.subrange(12, 16)
        + seq!['-'] + d.subrange(16, 20) + seq!['-'] + d.subrange(20, 32)
}

/// The version field of a UUID (the high nibble of its seventh byte).
pub open spec fn uuid_version(u: u128) -> int {
    (u as int / pow(2, 76)) % 16
}

/// The digits of a decimal's magnitude, padded with leading zeros to at
/// least `scale` digits (none at all for a zero magnitude and scale).
pub open spec fn decimal_digits(d: DecimalValue) -> Seq<char> {
    let t = if d.magnitude == 0 {
        Seq::<char>::empty()
    } else {
        decimal_text(d.magnitude as nat)
    };
    if t.len() < d.scale {
        Seq::new((d.scale - t.len()) as nat, |i: int| '0') + t
    } else {
        t
    }
}

/// The text a decimal displays: an optional minus sign, the whole part
/// (`0` when empty), and when the scale is positive a point followed by
/// exactly `scale` digits.
pub open spec fn decimal_display(d: DecimalValue) -> Seq<char> {
    let p = decimal_digits(d);
    let w = p.len() - d.scale;
    let body = if d.scale == 0 {
        if p.len() == 0 {
            seq!['0']
        } else {
            p
        }
    } else {
        (if w == 0 {
            seq!['0']
        } else {
            p.take(w)
        }) + seq!['.'] + p.skip(w)
    };
    if d.negative {
        seq!['-'] + body
    } else {
        body
    }
}

/// What `Uuid::parse_str` accepts, as the 128-bit value it reads.
pub uninterp spec fn uuid_parsed(s: Seq<char>) -> Option<u128>;

/// What `<rust_decimal::Decimal as FromStr>::from_str` reads.
pub uninterp spec fn decimal_parsed(s: Seq<char>) -> Option<DecimalValue>;

/// The instant `DateTime::parse_from_rfc3339` reads, as UTC seconds since
/// the epoch and nanoseconds within the second.
pub uninterp spec fn rfc3339_instant(s: Seq<char>) -> Option<(i64, u32)>;

/// The instant `NaiveDateTime::parse_from_str(s, fmt)` reads, taken as
/// UTC seconds since the epoch and nanoseconds within the second.
pub uninterp spec fn naive_instant(s: Seq<char>, fmt: Seq<char>) -> Option<(i64, u32)>;

/// The text of an instant formatted with `fmt`, when chrono can represent
/// the instant.
pub uninterp spec fn instant_text(secs: i64, nanos: u32, fmt: Seq<char>) -> Option<Seq<char>>;

/// The format a timestamp is rendered in on the wire: RFC 3339 in UTC,
/// with the `Z` designator and the fraction only when there is one.
pub open spec fn iso_datetime_format() -> Seq<char> {
    "%Y-%m-%dT%H:%M:%S%.fZ"@
}

/// Decodes hexadecimal text (`hex::decode`): `None` unless the text is an
/// even number of hex digits, in either case; otherwise the bytes.
#[verifier::external_body]
pub(crate) fn hex_decode(s: &str) -> (r: Option<Vec<u8>>)
    ensures
        match r {
            Some(b) => hex_decodable(s@) && b@ == hex_bytes(s@),
            None => !hex_decodable(s@),
        },
{
    match hex::decode(s) {
        Ok(b) => Some(b),
        Err(_) => None,
    }
}

/// Encodes bytes as lowercase hexadecimal text (`hex::encode`).
#[verifier::external_body]
pub(crate) fn hex_encode(b: &Vec<u8>) -> (r: String)
    ensures
        r@ == hex_lower(b@),
{
    hex::encode(b)
}

/// Parses a UUID in any form `Uuid::parse_str` accepts, giving its
/// 128-bit value (`Uuid::as_u128`).
#[verifier::external_body]
pub(crate) fn uuid_parse(s: &str) -> (r: Option<u128>)
    ensures
        r == uuid_parsed(s@),
{
    match uuid::Uuid::parse_str(s) {
        Ok(u) => Some(u.as_u128()),
        Err(_) => None,
    }
}

/// The hyphenated lowercase text of a UUID (`Uuid::from_u128(u).to_string()`).
#[verifier::external_body]
pub(crate) fn uuid_string(u: u128) -> (r: String)
    ensures
        r@ == uuid_text(u),
{
    uuid::Uuid::from_u128(u).to_string()
}

/// A fresh time-ordered UUID (`Uuid::now_v7`): its version field is 7.
/// Nothing else is stated: the value depends on the clock and on chance.
#[verifier::external_body]
pub(crate) fn uuid_now_v7() -> (r: u128)
    ensures
        uuid_version(r) == 7,
{
    uuid::Uuid::now_v7().as_u128()
}

/// Parses a decimal (`str::parse::<rust_decimal::Decimal>`), giving its
/// parts, which are within `rust_decimal`'s ranges.
#[verifier::external_body]
pub(crate) fn decimal_parse(s: &str) -> (r: Option<DecimalValue>)
    ensures
        r == decimal_parsed(s@),
        r matches Some(d) ==> d.wf(),
{
    match s.parse::<rust_decimal::Decimal>() {
        Ok(d) => Some(
            DecimalValue {
                negative: d.is_sign_negative(),
                magnitude: d.mantissa().unsigned_abs(),
                scale: d.scale(),
            },
        ),
        Err(_) => None,
    }
}

/// The display text of a decimal (`Decimal::to_string`).
#[verifier::external_body]
pub(crate) fn decimal_string(d: DecimalValue) -> (r: String)
    requires
        d.wf(),
    ensures
        r@ == decimal_display(d),
{
    let mut x = rust_decimal::Decimal::from_i128_with_scale(d.magnitude as i128, d.scale);
    x.set_sign_negative(d.negative);
    x.to_string()
}

/// Parses RFC 3339 text (`DateTime::parse_from_rfc3339`), giving the
/// instant in UTC.
#[verifier::external_body]
pub(crate) fn rfc3339_parse(s: &str) -> (r: Option<(i64, u32)>)
    ensures
        r == rfc3339_instant(s@),
{
    match chrono::DateTime::parse_from_rfc3339(s) {
        Ok(t) => Some((t.timestamp(), t.timestamp_subsec_nanos())),
        Err(_) => None,
    }
}

/// Parses a zone-less date and time with a strftime format
/// (`NaiveDateTime::parse_from_str`), taking it as UTC.
#[verifier::external_body]
pub(crate) fn naive_parse(s: &str, fmt: &str) -> (r: Option<(i64, u32)>)
    ensures
        r == naive_instant(s@, fmt@),
{
    match chrono::NaiveDateTime::parse_from_str(s, fmt) {
        Ok(t) => Some((t.and_utc().timestamp(), t.and_utc().timestamp_subsec_nanos())),
        Err(_) => None,
    }
}

/// Formats a UTC instant (`DateTime::from_timestamp`, then
/// `NaiveDateTime::format`); `None` when chrono cannot represent it.
/// The format is the wire format, for which formatting cannot fail.
#[verifier::external_body]
pub(crate) fn format_instant(secs: i64, nanos: u32, fmt: &str) -> (r: Option<String>)
    requires
        fmt@ == iso_datetime_format(),
    ensures
        match r {
            Some(t) => instant_text(secs, nanos, fmt@) == Some(t@),
            None => instant_text(secs, nanos, fmt@) is None,
        },
{
    match chrono::DateTime::from_timestamp(secs, nanos) {
        Some(t) => Some(t.naive_utc().format(fmt).to_string()),
        None => None,
    }
}

} // verus!

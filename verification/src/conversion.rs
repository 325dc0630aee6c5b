//! Converting reads: the elements of a collection converted to a target type
//! by the shared conversion rules of `qubit_datatype::DataConverter`, under
//! its default policy and limits.

use vstd::prelude::*;

use qubit_datatype::DataConversionErrorKind as Kind;

use crate::data_type::DataType;
use crate::into_value_default::IntoValueDefault;
use crate::multi_values::{MultiValues, MultiValuesModel};
use crate::natural_json::{date_display, date_time_display, instant_display, time_display};
use crate::payload::{BigDecimalValue, BigIntegerValue, DateTimeValue, DateValue, DurationValue, InstantValue, TimeValue, UrlValue};
use crate::value::{Value, ValueModel};
use crate::value_error::{ValueError, ValueMissing, ValueResult};

verus! {

/// Why a conversion failed, as `qubit_datatype::DataConversionErrorKind`
/// classifies it.
#[derive(Debug, Clone, Copy, PartialEq, Eq, Structural)]
pub enum ConversionKind {
    /// The source has no concrete value.
    Missing,
    /// A first value was requested from an empty collection.
    EmptyCollection,
    /// The source and target types do not convert.
    Unsupported,
    /// The types convert, but this source value does not.
    InvalidValue,
    /// A conversion limit was exceeded.
    LimitExceeded,
    /// A measurement did not fit its quantity.
    Quantity,
    /// A kind the outside classification gained later.
    Other,
}

#[verifier::external_type_specification]
#[verifier::external_body]
pub struct ExDataConverter<'a>(qubit_datatype::DataConverter<'a>);

/// A conversion source: the `qubit_datatype::DataConverter` of one value,
/// and the model of that value.
pub struct ConversionSource {
    pub(crate) converter: qubit_datatype::DataConverter<'static>,
    pub(crate) model: Ghost<ValueModel>,
}

impl View for ConversionSource {
    type V = ValueModel;

    closed spec fn view(&self) -> ValueModel {
        self.model@
    }
}

/// `url::Url::parse` accepts the text.
pub uninterp spec fn url_parses(text: Seq<char>) -> bool;

/// Builds the source of a `bool` with `DataConverter::from`.
///
/// Trusted claim: the source stands for that value.
#[verifier::external_body]
fn source_bool(x: bool) -> (r: ConversionSource)
    ensures
        r@ == ValueModel::Bool(x),
{
    ConversionSource { converter: qubit_datatype::DataConverter::from(x), model: Ghost(ValueModel::Bool(x)) }
}

/// Builds the source of a `char` with `DataConverter::from`.
///
/// Trusted claim: the source stands for that value.
#[verifier::external_body]
fn source_char(x: char) -> (r: ConversionSource)
    ensures
        r@ == ValueModel::Char(x),
{
    ConversionSource { converter: qubit_datatype::DataConverter::from(x), model: Ghost(ValueModel::Char(x)) }
}

/// Builds the source of a `i8` with `DataConverter::from`.
///
/// Trusted claim: the source stands for that value.
#[verifier::external_body]
fn source_i8(x: i8) -> (r: ConversionSource)
    ensures
        r@ == ValueModel::Int8(x),
{
    ConversionSource { converter: qubit_datatype::DataConverter::from(x), model: Ghost(ValueModel::Int8(x)) }
}

/// Builds the source of a `i16` with `DataConverter::from`.
///
/// Trusted claim: the source stands for that value.
#[verifier::external_body]
fn source_i16(x: i16) -> (r: ConversionSource)
    ensures
        r@ == ValueModel::Int16(x),
{
    ConversionSource { converter: qubit_datatype::DataConverter::from(x), model: Ghost(ValueModel::Int16(x)) }
}

/// Builds the source of a `i32` with `DataConverter::from`.
///
/// Trusted claim: the source stands for that value.
#[verifier::external_body]
fn source_i32(x: i32) -> (r: ConversionSource)
    ensures
        r@ == ValueModel::Int32(x),
{
    ConversionSource { converter: qubit_datatype::DataConverter::from(x), model: Ghost(ValueModel::Int32(x)) }
}

/// Builds the source of a `i64` with `DataConverter::from`.
///
/// Trusted claim: the source stands for that value.
#[verifier::external_body]
fn source_i64(x: i64) -> (r: ConversionSource)
    ensures
        r@ == ValueModel::Int64(x),
{
    ConversionSource { converter: qubit_datatype::DataConverter::from(x), model: Ghost(ValueModel::Int64(x)) }
}

/// Builds the source of a `i128` with `DataConverter::from`.
///
/// Trusted claim: the source stands for that value.
#[verifier::external_body]
fn source_i128(x: i128) -> (r: ConversionSource)
    ensures
        r@ == ValueModel::Int128(x),
{
    ConversionSource { converter: qubit_datatype::DataConverter::from(x), model: Ghost(ValueModel::Int128(x)) }
}

/// Builds the source of a `u8` with `DataConverter::from`.
///
/// Trusted claim: the source stands for that value.
#[verifier::external_body]
fn source_u8(x: u8) -> (r: ConversionSource)
    ensures
        r@ == ValueModel::UInt8(x),
{
    ConversionSource { converter: qubit_datatype::DataConverter::from(x), model: Ghost(ValueModel::UInt8(x)) }
}

/// Builds the source of a `u16` with `DataConverter::from`.
///
/// Trusted claim: the source stands for that value.
#[verifier::external_body]
fn source_u16(x: u16) -> (r: ConversionSource)
    ensures
        r@ == ValueModel::UInt16(x),
{
    ConversionSource { converter: qubit_datatype::DataConverter::from(x), model: Ghost(ValueModel::UInt16(x)) }
}

/// Builds the source of a `u32` with `DataConverter::from`.
///
/// Trusted claim: the source stands for that value.
#[verifier::external_body]
fn source_u32(x: u32) -> (r: ConversionSource)
    ensures
        r@ == ValueModel::UInt32(x),
{
    ConversionSource { converter: qubit_datatype::DataConverter::from(x), model: Ghost(ValueModel::UInt32(x)) }
}

/// Builds the source of a `u64` with `DataConverter::from`.
///
/// Trusted claim: the source stands for that value.
#[verifier::external_body]
fn source_u64(x: u64) -> (r: ConversionSource)
    ensures
        r@ == ValueModel::UInt64(x),
{
    ConversionSource { converter: qubit_datatype::DataConverter::from(x), model: Ghost(ValueModel::UInt64(x)) }
}

/// Builds the source of a `u128` with `DataConverter::from`.
///
/// Trusted claim: the source stands for that value.
#[verifier::external_body]
fn source_u128(x: u128) -> (r: ConversionSource)
    ensures
        r@ == ValueModel::UInt128(x),
{
    ConversionSource { converter: qubit_datatype::DataConverter::from(x), model: Ghost(ValueModel::UInt128(x)) }
}

/// Builds the source of a string with `DataConverter::from` of a copy.
///
/// Trusted claim: the source stands for that text.
#[verifier::external_body]
fn source_string(x: &String) -> (r: ConversionSource)
    ensures
        r@ == ValueModel::String(x@),
{
    ConversionSource { converter: qubit_datatype::DataConverter::from(x.clone()), model: Ghost(ValueModel::String(x@)) }
}

/// Builds the source of a date from `chrono::NaiveDate::from_num_days_from_ce_opt`.
///
/// Trusted claim: there is a source exactly when chrono has the date, which
/// is when `date_display` names a text.
#[verifier::external_body]
fn source_date(d: DateValue) -> (r: Option<ConversionSource>)
    ensures
        r is Some <==> date_display(d.days_from_ce) is Some,
        r matches Some(s) ==> s@ == ValueModel::Date(d),
{
    match chrono::NaiveDate::from_num_days_from_ce_opt(d.days_from_ce) {
        Some(date) => Some(ConversionSource { converter: qubit_datatype::DataConverter::from(date), model: Ghost(ValueModel::Date(d)) }),
        None => None,
    }
}

/// Builds the source of a time of day from
/// `chrono::NaiveTime::from_num_seconds_from_midnight_opt`.
///
/// Trusted claim: there is a source exactly when chrono has the time.
#[verifier::external_body]
fn source_time(t: TimeValue) -> (r: Option<ConversionSource>)
    ensures
        r is Some <==> time_display(t.secs_from_midnight, t.nanos) is Some,
        r matches Some(s) ==> s@ == ValueModel::Time(t),
{
    match chrono::NaiveTime::from_num_seconds_from_midnight_opt(t.secs_from_midnight, t.nanos) {
        Some(time) => Some(ConversionSource { converter: qubit_datatype::DataConverter::from(time), model: Ghost(ValueModel::Time(t)) }),
        None => None,
    }
}

/// Builds the source of a date and time from `chrono::NaiveDateTime::new`
/// of its two parts.
///
/// Trusted claim: there is a source exactly when chrono has both parts.
#[verifier::external_body]
fn source_date_time(x: DateTimeValue) -> (r: Option<ConversionSource>)
    ensures
        r is Some <==> date_time_display(x.date.days_from_ce, x.time.secs_from_midnight, x.time.nanos) is Some,
        r matches Some(s) ==> s@ == ValueModel::DateTime(x),
{
    let date = chrono::NaiveDate::from_num_days_from_ce_opt(x.date.days_from_ce);
    let time = chrono::NaiveTime::from_num_seconds_from_midnight_opt(x.time.secs_from_midnight, x.time.nanos);
    match (date, time) {
        (Some(date), Some(time)) => Some(ConversionSource {
            converter: qubit_datatype::DataConverter::from(chrono::NaiveDateTime::new(date, time)),
            model: Ghost(ValueModel::DateTime(x)),
        }),
        _ => None,
    }
}

/// Builds the source of a UTC instant from `chrono::NaiveDateTime::and_utc`
/// of its two parts.
///
/// Trusted claim: there is a source exactly when chrono has both parts.
#[verifier::external_body]
fn source_instant(x: InstantValue) -> (r: Option<ConversionSource>)
    ensures
        r is Some <==> instant_display(x.utc.date.days_from_ce, x.utc.time.secs_from_midnight, x.utc.time.nanos) is Some,
        r matches Some(s) ==> s@ == ValueModel::Instant(x),
{
    let date = chrono::NaiveDate::from_num_days_from_ce_opt(x.utc.date.days_from_ce);
    let time = chrono::NaiveTime::from_num_seconds_from_midnight_opt(x.utc.time.secs_from_midnight, x.utc.time.nanos);
    match (date, time) {
        (Some(date), Some(time)) => Some(ConversionSource {
            converter: qubit_datatype::DataConverter::from(chrono::NaiveDateTime::new(date, time).and_utc()),
            model: Ghost(ValueModel::Instant(x)),
        }),
        _ => None,
    }
}

/// Builds the source of a duration from `std::time::Duration::new`.
///
/// Trusted claim: the source stands for that duration; with `nanos` below
/// one second `Duration::new` does not panic.
#[verifier::external_body]
fn source_duration(d: DurationValue) -> (r: ConversionSource)
    requires
        d.nanos < 1_000_000_000,
    ensures
        r@ == ValueModel::Duration(d),
{
    ConversionSource { converter: qubit_datatype::DataConverter::from(std::time::Duration::new(d.secs, d.nanos)), model: Ghost(ValueModel::Duration(d)) }
}

/// Builds the source of a big integer from `num_bigint::BigInt::from_slice`.
///
/// Trusted claim: the source stands for that integer.
#[verifier::external_body]
fn source_big_integer(x: &BigIntegerValue) -> (r: ConversionSource)
    ensures
        r@ == ValueModel::BigInteger(x@),
{
    let sign = if x.negative { num_bigint::Sign::Minus } else { num_bigint::Sign::Plus };
    let value = num_bigint::BigInt::from_slice(sign, &x.magnitude);
    ConversionSource { converter: qubit_datatype::DataConverter::from(value), model: Ghost(ValueModel::BigInteger(x@)) }
}

/// Builds the source of a big decimal from `bigdecimal::BigDecimal::new` of
/// its coefficient (`BigInt::from_slice`) and scale.
///
/// Trusted claim: the source stands for that decimal.
#[verifier::external_body]
fn source_big_decimal(x: &BigDecimalValue) -> (r: ConversionSource)
    ensures
        r@ == ValueModel::BigDecimal(x@),
{
    let sign = if x.coefficient.negative { num_bigint::Sign::Minus } else { num_bigint::Sign::Plus };
    let coefficient = num_bigint::BigInt::from_slice(sign, &x.coefficient.magnitude);
    let value = bigdecimal::BigDecimal::new(coefficient, x.scale);
    ConversionSource { converter: qubit_datatype::DataConverter::from(value), model: Ghost(ValueModel::BigDecimal(x@)) }
}

/// Builds the source of a URL from `url::Url::parse` of its text.
///
/// Trusted claim: there is a source exactly when the text parses, which is
/// what `url_parses` names.
#[verifier::external_body]
fn source_url(x: &UrlValue) -> (r: Option<ConversionSource>)
    ensures
        r is Some <==> url_parses(x@),
        r matches Some(s) ==> s@ == ValueModel::Url(x@),
{
    match url::Url::parse(&x.text) {
        Ok(url) => Some(ConversionSource { converter: qubit_datatype::DataConverter::from(url), model: Ghost(ValueModel::Url(x@)) }),
        Err(_) => None,
    }
}

/// Result of `DataConverter::to::<bool>()` on the source of `v` under the
/// default policy and limits, a failure by its kind.
pub uninterp spec fn converted_bool(v: ValueModel) -> Result<bool, ConversionKind>;

/// Converts a source with `DataConverter::to::<bool>()`.
///
/// Trusted claim: the result is what `converted_bool` names; a failure is
/// reported by its `DataConversionErrorKind`.
#[verifier::external_body]
fn convert_bool(source: &ConversionSource) -> (r: Result<bool, ConversionKind>)
    ensures
        r == converted_bool(source@),
{
    match source.converter.to::<bool>() {
        Ok(v) => Ok(v),
        Err(e) => Err(match e.kind() {
            Kind::Missing => ConversionKind::Missing,
            Kind::EmptyCollection => ConversionKind::EmptyCollection,
            Kind::Unsupported => ConversionKind::Unsupported,
            Kind::InvalidValue => ConversionKind::InvalidValue,
            Kind::LimitExceeded => ConversionKind::LimitExceeded,
            Kind::Quantity => ConversionKind::Quantity,
            _ => ConversionKind::Other,
        }),
    }
}

/// Result of `DataConverter::to::<char>()` on the source of `v` under the
/// default policy and limits, a failure by its kind.
pub uninterp spec fn converted_char(v: ValueModel) -> Result<char, ConversionKind>;

/// Converts a source with `DataConverter::to::<char>()`.
///
/// Trusted claim: the result is what `converted_char` names; a failure is
/// reported by its `DataConversionErrorKind`.
#[verifier::external_body]
fn convert_char(source: &ConversionSource) -> (r: Result<char, ConversionKind>)
    ensures
        r == converted_char(source@),
{
    match source.converter.to::<char>() {
        Ok(v) => Ok(v),
        Err(e) => Err(match e.kind() {
            Kind::Missing => ConversionKind::Missing,
            Kind::EmptyCollection => ConversionKind::EmptyCollection,
            Kind::Unsupported => ConversionKind::Unsupported,
            Kind::InvalidValue => ConversionKind::InvalidValue,
            Kind::LimitExceeded => ConversionKind::LimitExceeded,
            Kind::Quantity => ConversionKind::Quantity,
            _ => ConversionKind::Other,
        }),
    }
}

/// Result of `DataConverter::to::<String>()` on the source of `v` under the
/// default policy and limits, a failure by its kind.
pub uninterp spec fn converted_string(v: ValueModel) -> Result<String, ConversionKind>;

/// Converts a source with `DataConverter::to::<String>()`.
///
/// Trusted claim: the result is what `converted_string` names; a failure is
/// reported by its `DataConversionErrorKind`.
#[verifier::external_body]
fn convert_string(source: &ConversionSource) -> (r: Result<String, ConversionKind>)
    ensures
        r == converted_string(source@),
{
    match source.converter.to::<String>() {
        Ok(v) => Ok(v),
        Err(e) => Err(match e.kind() {
            Kind::Missing => ConversionKind::Missing,
            Kind::EmptyCollection => ConversionKind::EmptyCollection,
            Kind::Unsupported => ConversionKind::Unsupported,
            Kind::InvalidValue => ConversionKind::InvalidValue,
            Kind::LimitExceeded => ConversionKind::LimitExceeded,
            Kind::Quantity => ConversionKind::Quantity,
            _ => ConversionKind::Other,
        }),
    }
}

/// Result of `DataConverter::to::<i8>()` on the source of `v` under the
/// default policy and limits, a failure by its kind.
pub uninterp spec fn converted_i8(v: ValueModel) -> Result<i8, ConversionKind>;

/// Converts a source with `DataConverter::to::<i8>()`.
///
/// Trusted claim: the result is what `converted_i8` names; a failure is
/// reported by its `DataConversionErrorKind`.
#[verifier::external_body]
fn convert_i8(source: &ConversionSource) -> (r: Result<i8, ConversionKind>)
    ensures
        r == converted_i8(source@),
{
    match source.converter.to::<i8>() {
        Ok(v) => Ok(v),
        Err(e) => Err(match e.kind() {
            Kind::Missing => ConversionKind::Missing,
            Kind::EmptyCollection => ConversionKind::EmptyCollection,
            Kind::Unsupported => ConversionKind::Unsupported,
            Kind::InvalidValue => ConversionKind::InvalidValue,
            Kind::LimitExceeded => ConversionKind::LimitExceeded,
            Kind::Quantity => ConversionKind::Quantity,
            _ => ConversionKind::Other,
        }),
    }
}

/// Result of `DataConverter::to::<i16>()` on the source of `v` under the
/// default policy and limits, a failure by its kind.
pub uninterp spec fn converted_i16(v: ValueModel) -> Result<i16, ConversionKind>;

/// Converts a source with `DataConverter::to::<i16>()`.
///
/// Trusted claim: the result is what `converted_i16` names; a failure is
/// reported by its `DataConversionErrorKind`.
#[verifier::external_body]
fn convert_i16(source: &ConversionSource) -> (r: Result<i16, ConversionKind>)
    ensures
        r == converted_i16(source@),
{
    match source.converter.to::<i16>() {
        Ok(v) => Ok(v),
        Err(e) => Err(match e.kind() {
            Kind::Missing => ConversionKind::Missing,
            Kind::EmptyCollection => ConversionKind::EmptyCollection,
            Kind::Unsupported => ConversionKind::Unsupported,
            Kind::InvalidValue => ConversionKind::InvalidValue,
            Kind::LimitExceeded => ConversionKind::LimitExceeded,
            Kind::Quantity => ConversionKind::Quantity,
            _ => ConversionKind::Other,
        }),
    }
}

/// Result of `DataConverter::to::<i32>()` on the source of `v` under the
/// default policy and limits, a failure by its kind.
pub uninterp spec fn converted_i32(v: ValueModel) -> Result<i32, ConversionKind>;

/// Converts a source with `DataConverter::to::<i32>()`.
///
/// Trusted claim: the result is what `converted_i32` names; a failure is
/// reported by its `DataConversionErrorKind`.
#[verifier::external_body]
fn convert_i32(source: &ConversionSource) -> (r: Result<i32, ConversionKind>)
    ensures
        r == converted_i32(source@),
{
    match source.converter.to::<i32>() {
        Ok(v) => Ok(v),
        Err(e) => Err(match e.kind() {
            Kind::Missing => ConversionKind::Missing,
            Kind::EmptyCollection => ConversionKind::EmptyCollection,
            Kind::Unsupported => ConversionKind::Unsupported,
            Kind::InvalidValue => ConversionKind::InvalidValue,
            Kind::LimitExceeded => ConversionKind::LimitExceeded,
            Kind::Quantity => ConversionKind::Quantity,
            _ => ConversionKind::Other,
        }),
    }
}

/// Result of `DataConverter::to::<i64>()` on the source of `v` under the
/// default policy and limits, a failure by its kind.
pub uninterp spec fn converted_i64(v: ValueModel) -> Result<i64, ConversionKind>;

/// Converts a source with `DataConverter::to::<i64>()`.
///
/// Trusted claim: the result is what `converted_i64` names; a failure is
/// reported by its `DataConversionErrorKind`.
#[verifier::external_body]
fn convert_i64(source: &ConversionSource) -> (r: Result<i64, ConversionKind>)
    ensures
        r == converted_i64(source@),
{
    match source.converter.to::<i64>() {
        Ok(v) => Ok(v),
        Err(e) => Err(match e.kind() {
            Kind::Missing => ConversionKind::Missing,
            Kind::EmptyCollection => ConversionKind::EmptyCollection,
            Kind::Unsupported => ConversionKind::Unsupported,
            Kind::InvalidValue => ConversionKind::InvalidValue,
            Kind::LimitExceeded => ConversionKind::LimitExceeded,
            Kind::Quantity => ConversionKind::Quantity,
            _ => ConversionKind::Other,
        }),
    }
}

/// Result of `DataConverter::to::<i128>()` on the source of `v` under the
/// default policy and limits, a failure by its kind.
pub uninterp spec fn converted_i128(v: ValueModel) -> Result<i128, ConversionKind>;

/// Converts a source with `DataConverter::to::<i128>()`.
///
/// Trusted claim: the result is what `converted_i128` names; a failure is
/// reported by its `DataConversionErrorKind`.
#[verifier::external_body]
fn convert_i128(source: &ConversionSource) -> (r: Result<i128, ConversionKind>)
    ensures
        r == converted_i128(source@),
{
    match source.converter.to::<i128>() {
        Ok(v) => Ok(v),
        Err(e) => Err(match e.kind() {
            Kind::Missing => ConversionKind::Missing,
            Kind::EmptyCollection => ConversionKind::EmptyCollection,
            Kind::Unsupported => ConversionKind::Unsupported,
            Kind::InvalidValue => ConversionKind::InvalidValue,
            Kind::LimitExceeded => ConversionKind::LimitExceeded,
            Kind::Quantity => ConversionKind::Quantity,
            _ => ConversionKind::Other,
        }),
    }
}

/// Result of `DataConverter::to::<u8>()` on the source of `v` under the
/// default policy and limits, a failure by its kind.
pub uninterp spec fn converted_u8(v: ValueModel) -> Result<u8, ConversionKind>;

/// Converts a source with `DataConverter::to::<u8>()`.
///
/// Trusted claim: the result is what `converted_u8` names; a failure is
/// reported by its `DataConversionErrorKind`.
#[verifier::external_body]
fn convert_u8(source: &ConversionSource) -> (r: Result<u8, ConversionKind>)
    ensures
        r == converted_u8(source@),
{
    match source.converter.to::<u8>() {
        Ok(v) => Ok(v),
        Err(e) => Err(match e.kind() {
            Kind::Missing => ConversionKind::Missing,
            Kind::EmptyCollection => ConversionKind::EmptyCollection,
            Kind::Unsupported => ConversionKind::Unsupported,
            Kind::InvalidValue => ConversionKind::InvalidValue,
            Kind::LimitExceeded => ConversionKind::LimitExceeded,
            Kind::Quantity => ConversionKind::Quantity,
            _ => ConversionKind::Other,
        }),
    }
}

/// Result of `DataConverter::to::<u16>()` on the source of `v` under the
/// default policy and limits, a failure by its kind.
pub uninterp spec fn converted_u16(v: ValueModel) -> Result<u16, ConversionKind>;

/// Converts a source with `DataConverter::to::<u16>()`.
///
/// Trusted claim: the result is what `converted_u16` names; a failure is
/// reported by its `DataConversionErrorKind`.
#[verifier::external_body]
fn convert_u16(source: &ConversionSource) -> (r: Result<u16, ConversionKind>)
    ensures
        r == converted_u16(source@),
{
    match source.converter.to::<u16>() {
        Ok(v) => Ok(v),
        Err(e) => Err(match e.kind() {
            Kind::Missing => ConversionKind::Missing,
            Kind::EmptyCollection => ConversionKind::EmptyCollection,
            Kind::Unsupported => ConversionKind::Unsupported,
            Kind::InvalidValue => ConversionKind::InvalidValue,
            Kind::LimitExceeded => ConversionKind::LimitExceeded,
            Kind::Quantity => ConversionKind::Quantity,
            _ => ConversionKind::Other,
        }),
    }
}

/// Result of `DataConverter::to::<u32>()` on the source of `v` under the
/// default policy and limits, a failure by its kind.
pub uninterp spec fn converted_u32(v: ValueModel) -> Result<u32, ConversionKind>;

/// Converts a source with `DataConverter::to::<u32>()`.
///
/// Trusted claim: the result is what `converted_u32` names; a failure is
/// reported by its `DataConversionErrorKind`.
#[verifier::external_body]
fn convert_u32(source: &ConversionSource) -> (r: Result<u32, ConversionKind>)
    ensures
        r == converted_u32(source@),
{
    match source.converter.to::<u32>() {
        Ok(v) => Ok(v),
        Err(e) => Err(match e.kind() {
            Kind::Missing => ConversionKind::Missing,
            Kind::EmptyCollection => ConversionKind::EmptyCollection,
            Kind::Unsupported => ConversionKind::Unsupported,
            Kind::InvalidValue => ConversionKind::InvalidValue,
            Kind::LimitExceeded => ConversionKind::LimitExceeded,
            Kind::Quantity => ConversionKind::Quantity,
            _ => ConversionKind::Other,
        }),
    }
}

/// Result of `DataConverter::to::<u64>()` on the source of `v` under the
/// default policy and limits, a failure by its kind.
pub uninterp spec fn converted_u64(v: ValueModel) -> Result<u64, ConversionKind>;

/// Converts a source with `DataConverter::to::<u64>()`.
///
/// Trusted claim: the result is what `converted_u64` names; a failure is
/// reported by its `DataConversionErrorKind`.
#[verifier::external_body]
fn convert_u64(source: &ConversionSource) -> (r: Result<u64, ConversionKind>)
    ensures
        r == converted_u64(source@),
{
    match source.converter.to::<u64>() {
        Ok(v) => Ok(v),
        Err(e) => Err(match e.kind() {
            Kind::Missing => ConversionKind::Missing,
            Kind::EmptyCollection => ConversionKind::EmptyCollection,
            Kind::Unsupported => ConversionKind::Unsupported,
            Kind::InvalidValue => ConversionKind::InvalidValue,
            Kind::LimitExceeded => ConversionKind::LimitExceeded,
            Kind::Quantity => ConversionKind::Quantity,
            _ => ConversionKind::Other,
        }),
    }
}

/// Result of `DataConverter::to::<u128>()` on the source of `v` under the
/// default policy and limits, a failure by its kind.
pub uninterp spec fn converted_u128(v: ValueModel) -> Result<u128, ConversionKind>;

/// Converts a source with `DataConverter::to::<u128>()`.
///
/// Trusted claim: the result is what `converted_u128` names; a failure is
/// reported by its `DataConversionErrorKind`.
#[verifier::external_body]
fn convert_u128(source: &ConversionSource) -> (r: Result<u128, ConversionKind>)
    ensures
        r == converted_u128(source@),
{
    match source.converter.to::<u128>() {
        Ok(v) => Ok(v),
        Err(e) => Err(match e.kind() {
            Kind::Missing => ConversionKind::Missing,
            Kind::EmptyCollection => ConversionKind::EmptyCollection,
            Kind::Unsupported => ConversionKind::Unsupported,
            Kind::InvalidValue => ConversionKind::InvalidValue,
            Kind::LimitExceeded => ConversionKind::LimitExceeded,
            Kind::Quantity => ConversionKind::Quantity,
            _ => ConversionKind::Other,
        }),
    }
}

/// A type collection elements can be converted to.
pub trait ConvertTarget: Sized {
    /// The data type of the target.
    spec fn target_type() -> DataType;

    /// The conversion of the source of `v` to this type.
    spec fn converted(v: ValueModel) -> Result<Self, ConversionKind>;

    /// The data type of the target.
    fn target_data_type() -> (r: DataType)
        ensures
            r == Self::target_type(),
    ;

    /// Converts a source to this type.
    fn convert(source: &ConversionSource) -> (r: Result<Self, ConversionKind>)
        ensures
            r == Self::converted(source@),
    ;
}

impl ConvertTarget for bool {
    open spec fn target_type() -> DataType {
        DataType::Bool
    }

    open spec fn converted(v: ValueModel) -> Result<bool, ConversionKind> {
        converted_bool(v)
    }

    fn target_data_type() -> (r: DataType) {
        DataType::Bool
    }

    fn convert(source: &ConversionSource) -> (r: Result<bool, ConversionKind>) {
        convert_bool(source)
    }
}

impl ConvertTarget for char {
    open spec fn target_type() -> DataType {
        DataType::Char
    }

    open spec fn converted(v: ValueModel) -> Result<char, ConversionKind> {
        converted_char(v)
    }

    fn target_data_type() -> (r: DataType) {
        DataType::Char
    }

    fn convert(source: &ConversionSource) -> (r: Result<char, ConversionKind>) {
        convert_char(source)
    }
}

impl ConvertTarget for String {
    open spec fn target_type() -> DataType {
        DataType::String
    }

    open spec fn converted(v: ValueModel) -> Result<String, ConversionKind> {
        converted_string(v)
    }

    fn target_data_type() -> (r: DataType) {
        DataType::String
    }

    fn convert(source: &ConversionSource) -> (r: Result<String, ConversionKind>) {
        convert_string(source)
    }
}

impl ConvertTarget for i8 {
    open spec fn target_type() -> DataType {
        DataType::Int8
    }

    open spec fn converted(v: ValueModel) -> Result<i8, ConversionKind> {
        converted_i8(v)
    }

    fn target_data_type() -> (r: DataType) {
        DataType::Int8
    }

    fn convert(source: &ConversionSource) -> (r: Result<i8, ConversionKind>) {
        convert_i8(source)
    }
}

impl ConvertTarget for i16 {
    open spec fn target_type() -> DataType {
        DataType::Int16
    }

    open spec fn converted(v: ValueModel) -> Result<i16, ConversionKind> {
        converted_i16(v)
    }

    fn target_data_type() -> (r: DataType) {
        DataType::Int16
    }

    fn convert(source: &ConversionSource) -> (r: Result<i16, ConversionKind>) {
        convert_i16(source)
    }
}

impl ConvertTarget for i32 {
    open spec fn target_type() -> DataType {
        DataType::Int32
    }

    open spec fn converted(v: ValueModel) -> Result<i32, ConversionKind> {
        converted_i32(v)
    }

    fn target_data_type() -> (r: DataType) {
        DataType::Int32
    }

    fn convert(source: &ConversionSource) -> (r: Result<i32, ConversionKind>) {
        convert_i32(source)
    }
}

impl ConvertTarget for i64 {
    open spec fn target_type() -> DataType {
        DataType::Int64
    }

    open spec fn converted(v: ValueModel) -> Result<i64, ConversionKind> {
        converted_i64(v)
    }

    fn target_data_type() -> (r: DataType) {
        DataType::Int64
    }

    fn convert(source: &ConversionSource) -> (r: Result<i64, ConversionKind>) {
        convert_i64(source)
    }
}

impl ConvertTarget for i128 {
    open spec fn target_type() -> DataType {
        DataType::Int128
    }

    open spec fn converted(v: ValueModel) -> Result<i128, ConversionKind> {
        converted_i128(v)
    }

    fn target_data_type() -> (r: DataType) {
        DataType::Int128
    }

    fn convert(source: &ConversionSource) -> (r: Result<i128, ConversionKind>) {
        convert_i128(source)
    }
}

impl ConvertTarget for u8 {
    open spec fn target_type() -> DataType {
        DataType::UInt8
    }

    open spec fn converted(v: ValueModel) -> Result<u8, ConversionKind> {
        converted_u8(v)
    }

    fn target_data_type() -> (r: DataType) {
        DataType::UInt8
    }

    fn convert(source: &ConversionSource) -> (r: Result<u8, ConversionKind>) {
        convert_u8(source)
    }
}

impl ConvertTarget for u16 {
    open spec fn target_type() -> DataType {
        DataType::UInt16
    }

    open spec fn converted(v: ValueModel) -> Result<u16, ConversionKind> {
        converted_u16(v)
    }

    fn target_data_type() -> (r: DataType) {
        DataType::UInt16
    }

    fn convert(source: &ConversionSource) -> (r: Result<u16, ConversionKind>) {
        convert_u16(source)
    }
}

impl ConvertTarget for u32 {
    open spec fn target_type() -> DataType {
        DataType::UInt32
    }

    open spec fn converted(v: ValueModel) -> Result<u32, ConversionKind> {
        converted_u32(v)
    }

    fn target_data_type() -> (r: DataType) {
        DataType::UInt32
    }

    fn convert(source: &ConversionSource) -> (r: Result<u32, ConversionKind>) {
        convert_u32(source)
    }
}

impl ConvertTarget for u64 {
    open spec fn target_type() -> DataType {
        DataType::UInt64
    }

    open spec fn converted(v: ValueModel) -> Result<u64, ConversionKind> {
        converted_u64(v)
    }

    fn target_data_type() -> (r: DataType) {
        DataType::UInt64
    }

    fn convert(source: &ConversionSource) -> (r: Result<u64, ConversionKind>) {
        convert_u64(source)
    }
}

impl ConvertTarget for u128 {
    open spec fn target_type() -> DataType {
        DataType::UInt128
    }

    open spec fn converted(v: ValueModel) -> Result<u128, ConversionKind> {
        converted_u128(v)
    }

    fn target_data_type() -> (r: DataType) {
        DataType::UInt128
    }

    fn convert(source: &ConversionSource) -> (r: Result<u128, ConversionKind>) {
        convert_u128(source)
    }
}

/// The value has a conversion source: not unset, not a float or JSON
/// document, and a payload its outside type can hold.
pub open spec fn source_exists(v: ValueModel) -> bool {
    match v {
        ValueModel::Unset(_) => false,
        ValueModel::Float32(_) => false,
        ValueModel::Float64(_) => false,
        ValueModel::Json(_) => false,
        ValueModel::Date(d) => date_display(d.days_from_ce) is Some,
        ValueModel::Time(t) => time_display(t.secs_from_midnight, t.nanos) is Some,
        ValueModel::DateTime(x) => date_time_display(x.date.days_from_ce, x.time.secs_from_midnight, x.time.nanos) is Some,
        ValueModel::Instant(x) => instant_display(
            x.utc.date.days_from_ce,
            x.utc.time.secs_from_midnight,
            x.utc.time.nanos,
        ) is Some,
        ValueModel::Duration(d) => d.nanos < 1_000_000_000,
        ValueModel::Url(u) => url_parses(u),
        _ => true,
    }
}

/// The values that have no conversion source here by their type: unset
/// values, floats and JSON documents.
pub open spec fn source_unsupported(v: ValueModel) -> bool {
    v is Unset || v is Float32 || v is Float64 || v is Json
}

/// The conversion of one value to `T`: `T`'s conversion of its source; a
/// value without a source is unsupported by its type, or invalid.
pub open spec fn element_conversion<T: ConvertTarget>(v: ValueModel) -> Result<T, ConversionKind> {
    if source_exists(v) {
        T::converted(v)
    } else if source_unsupported(v) {
        Err(ConversionKind::Unsupported)
    } else {
        Err(ConversionKind::InvalidValue)
    }
}

/// The converting read of one value to `T`, a failure reported with the
/// value's type, `T`'s type and the element's index, if any.
pub open spec fn converted_value<T: ConvertTarget>(v: ValueModel, index: Option<usize>) -> ValueResult<T> {
    match element_conversion::<T>(v) {
        Ok(x) => Ok(x),
        Err(kind) => Err(ValueError::Conversion { from: v.data_type(), to: T::target_type(), kind, source_index: index }),
    }
}

/// The converting read of the first element of `m` to `T`: a missing
/// value for an unset collection, an empty-collection error for a concrete
/// empty one, otherwise the conversion of the first element.
pub open spec fn first_conversion<T: ConvertTarget>(m: MultiValuesModel) -> ValueResult<T> {
    match m.items {
        None => Err(ValueError::Missing(ValueMissing::UnsetCollection { data_type: m.data_type })),
        Some(s) => if s.len() == 0 {
            Err(ValueError::Missing(ValueMissing::EmptyCollection { data_type: m.data_type }))
        } else {
            converted_value::<T>(s[0], None)
        },
    }
}

/// `r` is the converting read of every element of `m` to `T`: a missing
/// value for an unset collection, otherwise the conversions in order, or
/// the failure of the first element that does not convert.
pub open spec fn list_conversion<T: ConvertTarget>(m: MultiValuesModel, r: ValueResult<Vec<T>>) -> bool {
    match m.items {
        None => r == Err::<Vec<T>, ValueError>(ValueError::Missing(ValueMissing::UnsetCollection { data_type: m.data_type })),
        Some(s) => match r {
            Ok(v) => v@.len() == s.len() && forall|i: int| 0 <= i < s.len() ==> element_conversion::<T>(s[i]) == Ok::<T, ConversionKind>(#[trigger] v@[i]),
            Err(e) => exists|i: int|
                0 <= i < s.len() && (forall|j: int| 0 <= j < i ==> #[trigger] element_conversion::<T>(s[j]) is Ok)
                    && converted_value::<T>(s[i], Some(i as usize)) == Err::<T, ValueError>(e),
        },
    }
}

/// A converting read whose failure lets the `_or` forms fall back to the
/// default: an unset collection, or a conversion that reports a missing
/// value. A concrete empty collection does not.
pub open spec fn conversion_defaultable<T>(r: ValueResult<T>) -> bool {
    ||| r matches Err(ValueError::Missing(ValueMissing::UnsetCollection { .. }))
    ||| r matches Err(ValueError::Conversion { kind: ConversionKind::Missing, .. })
}

/// Every value whose payload its outside type always holds (booleans,
/// characters, integers, texts, big numbers, string maps) has a conversion
/// source, so converting it is the shared converter's result for that very
/// value; a duration has one exactly when its nanoseconds are below a
/// second; unset values, floats and JSON documents are reported as
/// unsupported.
pub proof fn lemma_conversion_sources<T: ConvertTarget>(v: ValueModel)
    ensures
        (v is Bool || v is Char || v is Int8 || v is Int16 || v is Int32 || v is Int64 || v is Int128 || v is UInt8
            || v is UInt16 || v is UInt32 || v is UInt64 || v is UInt128 || v is String || v is BigInteger
            || v is BigDecimal || v is StringMap) ==> source_exists(v) && element_conversion::<T>(v)
            == T::converted(v),
        v matches ValueModel::Duration(d) ==> (source_exists(v) <==> d.nanos < 1_000_000_000),
        (v is Unset || v is Float32 || v is Float64 || v is Json) ==> element_conversion::<T>(v)
            == Err::<T, ConversionKind>(ConversionKind::Unsupported),
        v matches ValueModel::Date(d) ==> (source_exists(v) <==> date_display(d.days_from_ce) is Some),
{
}

/// Converting the first element agrees with converting them all: when every
/// element of a non-empty collection converts, the first converted element
/// is the converting read of the first element.
pub proof fn lemma_first_of_list<T: ConvertTarget>(m: MultiValuesModel, v: Vec<T>)
    requires
        list_conversion::<T>(m, Ok(v)),
        m.len() > 0,
    ensures
        first_conversion::<T>(m) == Ok::<T, ValueError>(v@[0]),
{
    let s = m.items.unwrap();
    assert(element_conversion::<T>(s[0]) == Ok::<T, ConversionKind>(v@[0]));
}

/// An empty concrete collection never falls back to a default: its first
/// read is the empty-collection error.
pub proof fn lemma_empty_not_defaultable<T: ConvertTarget>(data_type: DataType)
    ensures
        ({
            let m = MultiValuesModel { data_type, items: Some(Seq::<ValueModel>::empty()) };
            &&& first_conversion::<T>(m) == Err::<T, ValueError>(
                ValueError::Missing(ValueMissing::EmptyCollection { data_type }),
            )
            &&& !conversion_defaultable(first_conversion::<T>(m))
        }),
{
}

/// The conversion source of a value, if it has one.
pub fn conversion_source(v: &Value) -> (r: Option<ConversionSource>)
    ensures
        r is Some <==> source_exists(v@),
        r matches Some(s) ==> s@ == v@,
{
    match v {
        Value::Bool(x) => Some(source_bool(*x)),
        Value::Char(x) => Some(source_char(*x)),
        Value::Int8(x) => Some(source_i8(*x)),
        Value::Int16(x) => Some(source_i16(*x)),
        Value::Int32(x) => Some(source_i32(*x)),
        Value::Int64(x) => Some(source_i64(*x)),
        Value::Int128(x) => Some(source_i128(*x)),
        Value::UInt8(x) => Some(source_u8(*x)),
        Value::UInt16(x) => Some(source_u16(*x)),
        Value::UInt32(x) => Some(source_u32(*x)),
        Value::UInt64(x) => Some(source_u64(*x)),
        Value::UInt128(x) => Some(source_u128(*x)),
        Value::String(x) => Some(source_string(x)),
        Value::Date(x) => source_date(*x),
        Value::Time(x) => source_time(*x),
        Value::DateTime(x) => source_date_time(*x),
        Value::Instant(x) => source_instant(*x),
        Value::Duration(x) => if x.nanos < 1_000_000_000 {
            Some(source_duration(*x))
        } else {
            None
        },
        Value::BigInteger(x) => Some(source_big_integer(x)),
        Value::BigDecimal(x) => Some(source_big_decimal(x)),
        Value::Url(x) => source_url(x),
        Value::StringMap(x) => Some(x.conversion_source()),
        _ => None,
    }
}

/// Converts one value to `T`, a failure reported with the element's index,
/// if any.
pub fn convert_value<T: ConvertTarget>(v: &Value, index: Option<usize>) -> (r: ValueResult<T>)
    ensures
        r == converted_value::<T>(v@, index),
{
    let kind = match conversion_source(v) {
        Some(source) => match T::convert(&source) {
            Ok(x) => {
                return Ok(x);
            },
            Err(kind) => kind,
        },
        None => match v {
            Value::Unset(_) => ConversionKind::Unsupported,
            Value::Float32(_) => ConversionKind::Unsupported,
            Value::Float64(_) => ConversionKind::Unsupported,
            Value::Json(_) => ConversionKind::Unsupported,
            _ => ConversionKind::InvalidValue,
        },
    };
    Err(ValueError::Conversion { from: v.data_type(), to: T::target_data_type(), kind, source_index: index })
}

impl MultiValues {
    /// Converts the first element to `T` by the shared conversion rules:
    /// a missing value when the collection is unset, an empty-collection
    /// error when it is concrete and empty.
    pub fn to_first<T: ConvertTarget>(&self) -> (r: ValueResult<T>)
        ensures
            r == first_conversion::<T>(self@),
    {
        match self.elements() {
            None => Err(ValueError::Missing(ValueMissing::UnsetCollection { data_type: self.data_type() })),
            Some(v) => {
                if v.len() == 0 {
                    return Err(ValueError::Missing(ValueMissing::EmptyCollection { data_type: self.data_type() }));
                }
                proof {
                    assert(self@.items.unwrap()[0] == v@[0]@);
                }
                convert_value::<T>(&v[0], None)
            },
        }
    }

    /// Converts the first element to `T`, or returns `default` when the
    /// collection is unset or the conversion reports a missing value; a
    /// concrete empty collection stays an error.
    pub fn to_first_or<T: ConvertTarget>(&self, default: impl IntoValueDefault<T>) -> (r: ValueResult<T>)
        ensures
            conversion_defaultable(first_conversion::<T>(self@)) ==> (r matches Ok(v) && default.default_matches(v)),
            !conversion_defaultable(first_conversion::<T>(self@)) ==> r == first_conversion::<T>(self@),
    {
        let result = self.to_first::<T>();
        if defaultable(&result) {
            return Ok(default.into_value_default());
        }
        result
    }

    /// Converts the first element to `T`, or calls `default` only when the
    /// collection is unset or the conversion reports a missing value.
    pub fn to_first_or_else<T: ConvertTarget, F: FnOnce() -> T>(&self, default: F) -> (r: ValueResult<T>)
        requires
            default.requires(()),
        ensures
            conversion_defaultable(first_conversion::<T>(self@)) ==> (r matches Ok(v) && default.ensures((), v)),
            !conversion_defaultable(first_conversion::<T>(self@)) ==> r == first_conversion::<T>(self@),
    {
        let result = self.to_first::<T>();
        if defaultable(&result) {
            return Ok(default());
        }
        result
    }

    /// Converts every element to `T` in order; a missing value when the
    /// collection is unset; the failure of the first element that does not
    /// convert, with its index.
    pub fn to_list<T: ConvertTarget>(&self) -> (r: ValueResult<Vec<T>>)
        ensures
            list_conversion::<T>(self@, r),
    {
        match self.elements() {
            None => Err(ValueError::Missing(ValueMissing::UnsetCollection { data_type: self.data_type() })),
            Some(v) => {
                let ghost s = self@.items.unwrap();
                let mut out: Vec<T> = Vec::new();
                let n = v.len();
                for i in 0..n
                    invariant
                        n == v@.len(),
                        self@.items == Some(s),
                        s.len() == n,
                        forall|j: int| 0 <= j < n ==> #[trigger] s[j] == v@[j]@,
                        out@.len() == i,
                        forall|j: int| 0 <= j < i ==> element_conversion::<T>(s[j]) == Ok::<T, ConversionKind>(#[trigger] out@[j]),
                {
                    match convert_value::<T>(&v[i], Some(i)) {
                        Ok(x) => {
                            out.push(x);
                        },
                        Err(e) => {
                            proof {
                                assert(s[i as int] == v@[i as int]@);
                                assert forall|j: int| 0 <= j < i implies #[trigger] element_conversion::<T>(s[j]) is Ok by {
                                    assert(element_conversion::<T>(s[j]) == Ok::<T, ConversionKind>(out@[j]));
                                }
                                assert(converted_value::<T>(s[i as int], Some(i)) == Err::<T, ValueError>(e));
                            }
                            return Err(e);
                        },
                    }
                    proof {
                        assert(s[i as int] == v@[i as int]@);
                    }
                }
                Ok(out)
            },
        }
    }

    /// Converts every element to `T`, or returns `default` when the
    /// collection is unset or a conversion reports a missing value.
    pub fn to_list_or<T: ConvertTarget>(&self, default: impl IntoValueDefault<Vec<T>>) -> (r: ValueResult<Vec<T>>)
        ensures
            exists|read: ValueResult<Vec<T>>| list_conversion::<T>(self@, read) && if conversion_defaultable(read) {
                r matches Ok(v) && default.default_matches(v)
            } else {
                r == read
            },
    {
        let result = self.to_list::<T>();
        if defaultable(&result) {
            return Ok(default.into_value_default());
        }
        result
    }

    /// Converts every element to `T`, or calls `default` only when the
    /// collection is unset or a conversion reports a missing value.
    pub fn to_list_or_else<T: ConvertTarget, F: FnOnce() -> Vec<T>>(&self, default: F) -> (r: ValueResult<Vec<T>>)
        requires
            default.requires(()),
        ensures
            exists|read: ValueResult<Vec<T>>| list_conversion::<T>(self@, read) && if conversion_defaultable(read) {
                r matches Ok(v) && default.ensures((), v)
            } else {
                r == read
            },
    {
        let result = self.to_list::<T>();
        if defaultable(&result) {
            return Ok(default());
        }
        result
    }
}

/// Tests whether a read falls back to the default.
fn defaultable<T>(r: &ValueResult<T>) -> (b: bool)
    ensures
        b == conversion_defaultable(*r),
{
    match r {
        Err(ValueError::Missing(ValueMissing::UnsetCollection { .. })) => true,
        Err(ValueError::Conversion { kind: ConversionKind::Missing, .. }) => true,
        _ => false,
    }
}

} // verus!

//! A single typed runtime value, or an unset value with a declared type.

use vstd::prelude::*;

use crate::data_type::DataType;
use crate::float_identity::{spec_canonical_f32_bits, spec_canonical_f64_bits};
use crate::json_value::{
    json_eq,
    json_same,
    json_wf,
    lemma_json_same_reflexive,
    lemma_json_same_symmetric,
    lemma_json_same_transitive,
    JsonModel,
    JsonValue,
};
use crate::payload::{
    decimal_of,
    decimal_values_equal,
    signed_value,
    BigDecimalModel,
    BigDecimalValue,
    BigIntegerValue,
    DateTimeValue,
    DateValue,
    DurationValue,
    Float32Value,
    Float64Value,
    InstantValue,
    TimeValue,
    UrlValue,
};
use crate::big_number_hash::lemma_decimal_equality_transitive;
use crate::string_map::{
    distinct_keys,
    has_entry,
    lemma_string_map_same_symmetric,
    lemma_string_map_same_transitive,
    string_map_same,
    StringMapModel,
    StringMapValue,
};

verus! {

/// One typed scalar value, or `Unset` with the declared type retained.
#[derive(Debug, Clone)]
pub enum Value {
    /// No concrete value; the declared data type is retained.
    Unset(DataType),
    Bool(bool),
    Char(char),
    Int8(i8),
    Int16(i16),
    Int32(i32),
    Int64(i64),
    Int128(i128),
    UInt8(u8),
    UInt16(u16),
    UInt32(u32),
    UInt64(u64),
    UInt128(u128),
    Float32(Float32Value),
    Float64(Float64Value),
    String(String),
    Date(DateValue),
    Time(TimeValue),
    DateTime(DateTimeValue),
    Instant(InstantValue),
    BigInteger(BigIntegerValue),
    BigDecimal(BigDecimalValue),
    Duration(DurationValue),
    Url(UrlValue),
    StringMap(StringMapValue),
    Json(JsonValue),
}

/// Mathematical model of a [`Value`]: texts by their characters and
/// collections by their models.
pub enum ValueModel {
    Unset(DataType),
    Bool(bool),
    Char(char),
    Int8(i8),
    Int16(i16),
    Int32(i32),
    Int64(i64),
    Int128(i128),
    UInt8(u8),
    UInt16(u16),
    UInt32(u32),
    UInt64(u64),
    UInt128(u128),
    Float32(Float32Value),
    Float64(Float64Value),
    String(Seq<char>),
    Date(DateValue),
    Time(TimeValue),
    DateTime(DateTimeValue),
    Instant(InstantValue),
    BigInteger((bool, Seq<u32>)),
    BigDecimal(BigDecimalModel),
    Duration(DurationValue),
    Url(Seq<char>),
    StringMap(StringMapModel),
    Json(JsonModel),
}

impl ValueModel {
    /// Runtime data type of the modeled value.
    pub open spec fn data_type(self) -> DataType {
        match self {
            ValueModel::Unset(dt) => dt,
            ValueModel::Bool(_) => DataType::Bool,
            ValueModel::Char(_) => DataType::Char,
            ValueModel::Int8(_) => DataType::Int8,
            ValueModel::Int16(_) => DataType::Int16,
            ValueModel::Int32(_) => DataType::Int32,
            ValueModel::Int64(_) => DataType::Int64,
            ValueModel::Int128(_) => DataType::Int128,
            ValueModel::UInt8(_) => DataType::UInt8,
            ValueModel::UInt16(_) => DataType::UInt16,
            ValueModel::UInt32(_) => DataType::UInt32,
            ValueModel::UInt64(_) => DataType::UInt64,
            ValueModel::UInt128(_) => DataType::UInt128,
            ValueModel::Float32(_) => DataType::Float32,
            ValueModel::Float64(_) => DataType::Float64,
            ValueModel::String(_) => DataType::String,
            ValueModel::Date(_) => DataType::Date,
            ValueModel::Time(_) => DataType::Time,
            ValueModel::DateTime(_) => DataType::DateTime,
            ValueModel::Instant(_) => DataType::Instant,
            ValueModel::BigInteger(_) => DataType::BigInteger,
            ValueModel::BigDecimal(_) => DataType::BigDecimal,
            ValueModel::Duration(_) => DataType::Duration,
            ValueModel::Url(_) => DataType::Url,
            ValueModel::StringMap(_) => DataType::StringMap,
            ValueModel::Json(_) => DataType::Json,
        }
    }
}

/// Identity of two values: the same variant with equal payloads, where
/// floats compare by canonical bits, big numbers by numeric value, string
/// maps as maps and JSON structurally; two unset values are the same when
/// their declared types are.
pub open spec fn value_same(a: ValueModel, b: ValueModel) -> bool {
    match (a, b) {
        (ValueModel::Unset(x), ValueModel::Unset(y)) => x == y,
        (ValueModel::Bool(x), ValueModel::Bool(y)) => x == y,
        (ValueModel::Char(x), ValueModel::Char(y)) => x == y,
        (ValueModel::Int8(x), ValueModel::Int8(y)) => x == y,
        (ValueModel::Int16(x), ValueModel::Int16(y)) => x == y,
        (ValueModel::Int32(x), ValueModel::Int32(y)) => x == y,
        (ValueModel::Int64(x), ValueModel::Int64(y)) => x == y,
        (ValueModel::Int128(x), ValueModel::Int128(y)) => x == y,
        (ValueModel::UInt8(x), ValueModel::UInt8(y)) => x == y,
        (ValueModel::UInt16(x), ValueModel::UInt16(y)) => x == y,
        (ValueModel::UInt32(x), ValueModel::UInt32(y)) => x == y,
        (ValueModel::UInt64(x), ValueModel::UInt64(y)) => x == y,
        (ValueModel::UInt128(x), ValueModel::UInt128(y)) => x == y,
        (ValueModel::Float32(x), ValueModel::Float32(y)) => x.spec_same(y),
        (ValueModel::Float64(x), ValueModel::Float64(y)) => x.spec_same(y),
        (ValueModel::String(x), ValueModel::String(y)) => x == y,
        (ValueModel::Date(x), ValueModel::Date(y)) => x == y,
        (ValueModel::Time(x), ValueModel::Time(y)) => x == y,
        (ValueModel::DateTime(x), ValueModel::DateTime(y)) => x == y,
        (ValueModel::Instant(x), ValueModel::Instant(y)) => x == y,
        (ValueModel::BigInteger(x), ValueModel::BigInteger(y)) => signed_value(x) == signed_value(y),
        (ValueModel::BigDecimal(x), ValueModel::BigDecimal(y)) => decimal_values_equal(decimal_of(x), decimal_of(y)),
        (ValueModel::Duration(x), ValueModel::Duration(y)) => x == y,
        (ValueModel::Url(x), ValueModel::Url(y)) => x == y,
        (ValueModel::StringMap(x), ValueModel::StringMap(y)) => string_map_same(x, y),
        (ValueModel::Json(x), ValueModel::Json(y)) => json_same(x, y),
        _ => false,
    }
}

/// A value as the payload types it stands for can hold it: string-map keys are
/// distinct, and JSON documents are well formed.
pub open spec fn value_wf(v: ValueModel) -> bool {
    match v {
        ValueModel::StringMap(m) => distinct_keys(m),
        ValueModel::Json(j) => json_wf(j),
        _ => true,
    }
}

/// Value identity is reflexive on well-formed values: every value, NaNs
/// included, is the same as itself.
pub proof fn lemma_value_same_reflexive(v: ValueModel)
    requires
        value_wf(v),
    ensures
        value_same(v, v),
{
    match v {
        ValueModel::BigDecimal(d) => {
            vstd::arithmetic::power::lemma_pow0(10);
        },
        ValueModel::StringMap(m) => {
            assert forall|i: int| 0 <= i < m.len() implies has_entry(m, #[trigger] m[i].0, m[i].1) by {
                assert(m[i] == (m[i].0, m[i].1));
            }
        },
        ValueModel::Json(j) => {
            lemma_json_same_reflexive(j);
        },
        _ => {},
    }
}

/// Value identity is symmetric on well-formed values.
pub proof fn lemma_value_same_symmetric(a: ValueModel, b: ValueModel)
    requires
        value_wf(a),
        value_wf(b),
        value_same(a, b),
    ensures
        value_same(b, a),
{
    match (a, b) {
        (ValueModel::BigDecimal(x), ValueModel::BigDecimal(y)) => {
            vstd::arithmetic::power::lemma_pow0(10);
        },
        (ValueModel::StringMap(x), ValueModel::StringMap(y)) => {
            lemma_string_map_same_symmetric(x, y);
        },
        (ValueModel::Json(x), ValueModel::Json(y)) => {
            lemma_json_same_symmetric(x, y);
        },
        _ => {},
    }
}

/// Value identity is transitive.
pub proof fn lemma_value_same_transitive(a: ValueModel, b: ValueModel, c: ValueModel)
    requires
        value_same(a, b),
        value_same(b, c),
    ensures
        value_same(a, c),
{
    match (a, b, c) {
        (ValueModel::BigDecimal(x), ValueModel::BigDecimal(y), ValueModel::BigDecimal(z)) => {
            lemma_decimal_equality_transitive(decimal_of(x), decimal_of(y), decimal_of(z));
        },
        (ValueModel::StringMap(x), ValueModel::StringMap(y), ValueModel::StringMap(z)) => {
            lemma_string_map_same_transitive(x, y, z);
        },
        (ValueModel::Json(x), ValueModel::Json(y), ValueModel::Json(z)) => {
            lemma_json_same_transitive(x, y, z);
        },
        _ => {},
    }
}

impl View for Value {
    type V = ValueModel;

    open spec fn view(&self) -> ValueModel {
        match self {
            Value::Unset(dt) => ValueModel::Unset(*dt),
            Value::Bool(x) => ValueModel::Bool(*x),
            Value::Char(x) => ValueModel::Char(*x),
            Value::Int8(x) => ValueModel::Int8(*x),
            Value::Int16(x) => ValueModel::Int16(*x),
            Value::Int32(x) => ValueModel::Int32(*x),
            Value::Int64(x) => ValueModel::Int64(*x),
            Value::Int128(x) => ValueModel::Int128(*x),
            Value::UInt8(x) => ValueModel::UInt8(*x),
            Value::UInt16(x) => ValueModel::UInt16(*x),
            Value::UInt32(x) => ValueModel::UInt32(*x),
            Value::UInt64(x) => ValueModel::UInt64(*x),
            Value::UInt128(x) => ValueModel::UInt128(*x),
            Value::Float32(x) => ValueModel::Float32(*x),
            Value::Float64(x) => ValueModel::Float64(*x),
            Value::String(x) => ValueModel::String(x@),
            Value::Date(x) => ValueModel::Date(*x),
            Value::Time(x) => ValueModel::Time(*x),
            Value::DateTime(x) => ValueModel::DateTime(*x),
            Value::Instant(x) => ValueModel::Instant(*x),
            Value::BigInteger(x) => ValueModel::BigInteger(x@),
            Value::BigDecimal(x) => ValueModel::BigDecimal(x@),
            Value::Duration(x) => ValueModel::Duration(*x),
            Value::Url(x) => ValueModel::Url(x@),
            Value::StringMap(x) => ValueModel::StringMap(x@),
            Value::Json(x) => ValueModel::Json(x@),
        }
    }
}

impl Value {
    /// Creates an unset value retaining `data_type`.
    pub fn new_unset(data_type: DataType) -> (r: Self)
        ensures
            r@ == ValueModel::Unset(data_type),
    {
        Value::Unset(data_type)
    }

    /// Returns the runtime data type: the declared type of an unset value,
    /// otherwise the type of the stored payload.
    pub fn data_type(&self) -> (r: DataType)
        ensures
            r == self@.data_type(),
    {
        match self {
            Value::Unset(dt) => *dt,
            Value::Bool(_) => DataType::Bool,
            Value::Char(_) => DataType::Char,
            Value::Int8(_) => DataType::Int8,
            Value::Int16(_) => DataType::Int16,
            Value::Int32(_) => DataType::Int32,
            Value::Int64(_) => DataType::Int64,
            Value::Int128(_) => DataType::Int128,
            Value::UInt8(_) => DataType::UInt8,
            Value::UInt16(_) => DataType::UInt16,
            Value::UInt32(_) => DataType::UInt32,
            Value::UInt64(_) => DataType::UInt64,
            Value::UInt128(_) => DataType::UInt128,
            Value::Float32(_) => DataType::Float32,
            Value::Float64(_) => DataType::Float64,
            Value::String(_) => DataType::String,
            Value::Date(_) => DataType::Date,
            Value::Time(_) => DataType::Time,
            Value::DateTime(_) => DataType::DateTime,
            Value::Instant(_) => DataType::Instant,
            Value::BigInteger(_) => DataType::BigInteger,
            Value::BigDecimal(_) => DataType::BigDecimal,
            Value::Duration(_) => DataType::Duration,
            Value::Url(_) => DataType::Url,
            Value::StringMap(_) => DataType::StringMap,
            Value::Json(_) => DataType::Json,
        }
    }

    /// Tests whether no concrete value is stored.
    pub fn is_unset(&self) -> (r: bool)
        ensures
            r == (self@ is Unset),
    {
        match self {
            Value::Unset(_) => true,
            _ => false,
        }
    }

    /// Returns a copy with the same model.
    pub fn duplicate(&self) -> (r: Self)
        ensures
            r@ == self@,
    {
        match self {
            Value::Unset(dt) => Value::Unset(*dt),
            Value::Bool(x) => Value::Bool(*x),
            Value::Char(x) => Value::Char(*x),
            Value::Int8(x) => Value::Int8(*x),
            Value::Int16(x) => Value::Int16(*x),
            Value::Int32(x) => Value::Int32(*x),
            Value::Int64(x) => Value::Int64(*x),
            Value::Int128(x) => Value::Int128(*x),
            Value::UInt8(x) => Value::UInt8(*x),
            Value::UInt16(x) => Value::UInt16(*x),
            Value::UInt32(x) => Value::UInt32(*x),
            Value::UInt64(x) => Value::UInt64(*x),
            Value::UInt128(x) => Value::UInt128(*x),
            Value::Float32(x) => Value::Float32(*x),
            Value::Float64(x) => Value::Float64(*x),
            Value::String(x) => Value::String(x.clone()),
            Value::Date(x) => Value::Date(*x),
            Value::Time(x) => Value::Time(*x),
            Value::DateTime(x) => Value::DateTime(*x),
            Value::Instant(x) => Value::Instant(*x),
            Value::BigInteger(x) => Value::BigInteger(x.duplicate()),
            Value::BigDecimal(x) => Value::BigDecimal(x.duplicate()),
            Value::Duration(x) => Value::Duration(*x),
            Value::Url(x) => Value::Url(x.duplicate()),
            Value::StringMap(x) => Value::StringMap(x.duplicate()),
            Value::Json(x) => Value::Json(x.duplicate()),
        }
    }

    /// Tests value identity: the same variant with equal payloads (canonical
    /// floats, numeric big numbers, map-equal string maps, structural JSON).
    pub fn same(&self, other: &Self) -> (r: bool)
        ensures
            r == value_same(self@, other@),
    {
        match (self, other) {
            (Value::Unset(x), Value::Unset(y)) => *x == *y,
            (Value::Bool(x), Value::Bool(y)) => *x == *y,
            (Value::Char(x), Value::Char(y)) => *x == *y,
            (Value::Int8(x), Value::Int8(y)) => *x == *y,
            (Value::Int16(x), Value::Int16(y)) => *x == *y,
            (Value::Int32(x), Value::Int32(y)) => *x == *y,
            (Value::Int64(x), Value::Int64(y)) => *x == *y,
            (Value::Int128(x), Value::Int128(y)) => *x == *y,
            (Value::UInt8(x), Value::UInt8(y)) => *x == *y,
            (Value::UInt16(x), Value::UInt16(y)) => *x == *y,
            (Value::UInt32(x), Value::UInt32(y)) => *x == *y,
            (Value::UInt64(x), Value::UInt64(y)) => *x == *y,
            (Value::UInt128(x), Value::UInt128(y)) => *x == *y,
            (Value::Float32(x), Value::Float32(y)) => x.same(y),
            (Value::Float64(x), Value::Float64(y)) => x.same(y),
            (Value::String(x), Value::String(y)) => *x == *y,
            (Value::Date(x), Value::Date(y)) => *x == *y,
            (Value::Time(x), Value::Time(y)) => *x == *y,
            (Value::DateTime(x), Value::DateTime(y)) => *x == *y,
            (Value::Instant(x), Value::Instant(y)) => *x == *y,
            (Value::BigInteger(x), Value::BigInteger(y)) => x.same(y),
            (Value::BigDecimal(x), Value::BigDecimal(y)) => x.same(y),
            (Value::Duration(x), Value::Duration(y)) => *x == *y,
            (Value::Url(x), Value::Url(y)) => x.same(y),
            (Value::StringMap(x), Value::StringMap(y)) => x.same(y),
            (Value::Json(x), Value::Json(y)) => json_eq(x, y),
            _ => false,
        }
    }
}

/// For payloads without a canonical form (booleans, characters, integers,
/// texts, dates, times, instants, durations and URLs) identity is equality
/// of the payloads: a duration's seconds and nanoseconds both count, as do
/// a time's.
pub proof fn lemma_plain_identity_is_equality()
    ensures
        forall|a: bool, b: bool| #[trigger] value_same(ValueModel::Bool(a), ValueModel::Bool(b)) <==> a == b,
        forall|a: char, b: char| #[trigger] value_same(ValueModel::Char(a), ValueModel::Char(b)) <==> a == b,
        forall|a: i8, b: i8| #[trigger] value_same(ValueModel::Int8(a), ValueModel::Int8(b)) <==> a == b,
        forall|a: i16, b: i16| #[trigger] value_same(ValueModel::Int16(a), ValueModel::Int16(b)) <==> a == b,
        forall|a: i32, b: i32| #[trigger] value_same(ValueModel::Int32(a), ValueModel::Int32(b)) <==> a == b,
        forall|a: i64, b: i64| #[trigger] value_same(ValueModel::Int64(a), ValueModel::Int64(b)) <==> a == b,
        forall|a: i128, b: i128| #[trigger] value_same(ValueModel::Int128(a), ValueModel::Int128(b)) <==> a == b,
        forall|a: u8, b: u8| #[trigger] value_same(ValueModel::UInt8(a), ValueModel::UInt8(b)) <==> a == b,
        forall|a: u16, b: u16| #[trigger] value_same(ValueModel::UInt16(a), ValueModel::UInt16(b)) <==> a == b,
        forall|a: u32, b: u32| #[trigger] value_same(ValueModel::UInt32(a), ValueModel::UInt32(b)) <==> a == b,
        forall|a: u64, b: u64| #[trigger] value_same(ValueModel::UInt64(a), ValueModel::UInt64(b)) <==> a == b,
        forall|a: u128, b: u128| #[trigger] value_same(ValueModel::UInt128(a), ValueModel::UInt128(b)) <==> a == b,
        forall|a: Seq<char>, b: Seq<char>| #[trigger] value_same(ValueModel::String(a), ValueModel::String(b)) <==> a == b,
        forall|a: DateValue, b: DateValue| #[trigger] value_same(ValueModel::Date(a), ValueModel::Date(b)) <==> a == b,
        forall|a: TimeValue, b: TimeValue| #[trigger] value_same(ValueModel::Time(a), ValueModel::Time(b)) <==> a == b,
        forall|a: DateTimeValue, b: DateTimeValue| #[trigger] value_same(ValueModel::DateTime(a), ValueModel::DateTime(b)) <==> a == b,
        forall|a: InstantValue, b: InstantValue| #[trigger] value_same(ValueModel::Instant(a), ValueModel::Instant(b)) <==> a == b,
        forall|a: Seq<char>, b: Seq<char>| #[trigger] value_same(ValueModel::Url(a), ValueModel::Url(b)) <==> a == b,
        forall|a: DurationValue, b: DurationValue| #[trigger] value_same(ValueModel::Duration(a), ValueModel::Duration(b)) <==> (a.secs == b.secs && a.nanos == b.nanos),
        forall|a: TimeValue, b: TimeValue| #[trigger] value_same(ValueModel::Time(a), ValueModel::Time(b)) <==> (a.secs_from_midnight == b.secs_from_midnight && a.nanos == b.nanos),
{
}

/// Identity of the canonicalised payloads: floats by their canonical bits,
/// big integers by numeric value, big decimals by numeric value whatever
/// their scale, string maps as maps, JSON documents structurally.
pub proof fn lemma_canonical_identity()
    ensures
        forall|a: Float32Value, b: Float32Value| #[trigger] value_same(ValueModel::Float32(a), ValueModel::Float32(b))
            <==> spec_canonical_f32_bits(a.bits) == spec_canonical_f32_bits(b.bits),
        forall|a: Float64Value, b: Float64Value| #[trigger] value_same(ValueModel::Float64(a), ValueModel::Float64(b))
            <==> spec_canonical_f64_bits(a.bits) == spec_canonical_f64_bits(b.bits),
        forall|a: (bool, Seq<u32>), b: (bool, Seq<u32>)| #[trigger] value_same(ValueModel::BigInteger(a), ValueModel::BigInteger(b))
            <==> signed_value(a) == signed_value(b),
        forall|a: BigDecimalModel, b: BigDecimalModel| #[trigger] value_same(ValueModel::BigDecimal(a), ValueModel::BigDecimal(b))
            <==> decimal_values_equal(decimal_of(a), decimal_of(b)),
        forall|a: StringMapModel, b: StringMapModel| #[trigger] value_same(ValueModel::StringMap(a), ValueModel::StringMap(b))
            <==> string_map_same(a, b),
        forall|a: JsonModel, b: JsonModel| #[trigger] value_same(ValueModel::Json(a), ValueModel::Json(b)) <==> json_same(a, b),
{
}

/// Identity never relates values of different data types, nor an unset
/// value to a concrete one.
pub proof fn lemma_identity_keeps_type(a: ValueModel, b: ValueModel)
    requires
        value_same(a, b),
    ensures
        a.data_type() == b.data_type(),
        (a is Unset) == (b is Unset),
{
}

impl PartialEq for Value {
    fn eq(&self, other: &Self) -> (r: bool) {
        self.same(other)
    }
}

impl vstd::std_specs::cmp::PartialEqSpecImpl for Value {
    open spec fn obeys_eq_spec() -> bool {
        true
    }

    open spec fn eq_spec(&self, other: &Self) -> bool {
        value_same(self@, other@)
    }
}

impl Eq for Value {}

} // verus!

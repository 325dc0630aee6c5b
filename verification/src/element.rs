//! The element types a collection can hold, and how each one becomes a
//! [`Value`] and back.

use vstd::prelude::*;

use crate::data_type::DataType;
use crate::json_value::JsonValue;
use crate::payload::{
    BigDecimalValue,
    BigIntegerValue,
    DateTimeValue,
    DateValue,
    DurationValue,
    Float32Value,
    Float64Value,
    InstantValue,
    TimeValue,
    UrlValue,
};
use crate::string_map::StringMapValue;
use crate::value::{Value, ValueModel};

verus! {

/// A Rust type that stores one element of a typed collection.
///
/// Each element type belongs to exactly one [`DataType`], and its elements
/// are the concrete (never unset) values of that type.
pub trait ValueElement: Sized + Clone {
    /// Data type of every element of this type.
    spec fn element_data_type() -> DataType;

    /// The value model of this element.
    spec fn element_model(self) -> ValueModel;

    /// Returns the data type of every element of this type.
    fn element_type() -> (r: DataType)
        ensures
            r == Self::element_data_type(),
    ;

    /// Wraps this element in a [`Value`].
    fn into_value(self) -> (r: Value)
        ensures
            r@ == self.element_model(),
    ;

    /// Copies the element out of `value` when it holds one of this type.
    fn from_value(value: &Value) -> (r: Option<Self>)
        ensures
            r is Some <==> (value@.data_type() == Self::element_data_type() && !(value@ is Unset)),
            r matches Some(x) ==> x.element_model() == value@,
    ;

    /// Returns a copy with the same model.
    fn duplicate_element(&self) -> (r: Self)
        ensures
            r.element_model() == self.element_model(),
    ;

    /// Every element is a concrete value of [`Self::element_data_type`].
    proof fn lemma_element_typed(x: Self)
        ensures
            x.element_model().data_type() == Self::element_data_type(),
            !(x.element_model() is Unset),
    ;
}

/// Models of a sequence of elements.
pub open spec fn elements_model<T: ValueElement>(s: Seq<T>) -> Seq<ValueModel> {
    s.map_values(|x: T| x.element_model())
}

impl ValueElement for bool {
    open spec fn element_data_type() -> DataType {
        DataType::Bool
    }

    open spec fn element_model(self) -> ValueModel {
        ValueModel::Bool(self)
    }

    fn element_type() -> (r: DataType) {
        DataType::Bool
    }

    fn into_value(self) -> (r: Value) {
        Value::Bool(self)
    }

    fn from_value(value: &Value) -> (r: Option<Self>) {
        match value {
            Value::Bool(x) => Some(*x),
            _ => None,
        }
    }

    fn duplicate_element(&self) -> (r: Self) {
        *self
    }

    proof fn lemma_element_typed(x: Self) {
    }
}

impl ValueElement for char {
    open spec fn element_data_type() -> DataType {
        DataType::Char
    }

    open spec fn element_model(self) -> ValueModel {
        ValueModel::Char(self)
    }

    fn element_type() -> (r: DataType) {
        DataType::Char
    }

    fn into_value(self) -> (r: Value) {
        Value::Char(self)
    }

    fn from_value(value: &Value) -> (r: Option<Self>) {
        match value {
            Value::Char(x) => Some(*x),
            _ => None,
        }
    }

    fn duplicate_element(&self) -> (r: Self) {
        *self
    }

    proof fn lemma_element_typed(x: Self) {
    }
}

impl ValueElement for i8 {
    open spec fn element_data_type() -> DataType {
        DataType::Int8
    }

    open spec fn element_model(self) -> ValueModel {
        ValueModel::Int8(self)
    }

    fn element_type() -> (r: DataType) {
        DataType::Int8
    }

    fn into_value(self) -> (r: Value) {
        Value::Int8(self)
    }

    fn from_value(value: &Value) -> (r: Option<Self>) {
        match value {
            Value::Int8(x) => Some(*x),
            _ => None,
        }
    }

    fn duplicate_element(&self) -> (r: Self) {
        *self
    }

    proof fn lemma_element_typed(x: Self) {
    }
}

impl ValueElement for i16 {
    open spec fn element_data_type() -> DataType {
        DataType::Int16
    }

    open spec fn element_model(self) -> ValueModel {
        ValueModel::Int16(self)
    }

    fn element_type() -> (r: DataType) {
        DataType::Int16
    }

    fn into_value(self) -> (r: Value) {
        Value::Int16(self)
    }

    fn from_value(value: &Value) -> (r: Option<Self>) {
        match value {
            Value::Int16(x) => Some(*x),
            _ => None,
        }
    }

    fn duplicate_element(&self) -> (r: Self) {
        *self
    }

    proof fn lemma_element_typed(x: Self) {
    }
}

impl ValueElement for i32 {
    open spec fn element_data_type() -> DataType {
        DataType::Int32
    }

    open spec fn element_model(self) -> ValueModel {
        ValueModel::Int32(self)
    }

    fn element_type() -> (r: DataType) {
        DataType::Int32
    }

    fn into_value(self) -> (r: Value) {
        Value::Int32(self)
    }

    fn from_value(value: &Value) -> (r: Option<Self>) {
        match value {
            Value::Int32(x) => Some(*x),
            _ => None,
        }
    }

    fn duplicate_element(&self) -> (r: Self) {
        *self
    }

    proof fn lemma_element_typed(x: Self) {
    }
}

impl ValueElement for i64 {
    open spec fn element_data_type() -> DataType {
        DataType::Int64
    }

    open spec fn element_model(self) -> ValueModel {
        ValueModel::Int64(self)
    }

    fn element_type() -> (r: DataType) {
        DataType::Int64
    }

    fn into_value(self) -> (r: Value) {
        Value::Int64(self)
    }

    fn from_value(value: &Value) -> (r: Option<Self>) {
        match value {
            Value::Int64(x) => Some(*x),
            _ => None,
        }
    }

    fn duplicate_element(&self) -> (r: Self) {
        *self
    }

    proof fn lemma_element_typed(x: Self) {
    }
}

impl ValueElement for i128 {
    open spec fn element_data_type() -> DataType {
        DataType::Int128
    }

    open spec fn element_model(self) -> ValueModel {
        ValueModel::Int128(self)
    }

    fn element_type() -> (r: DataType) {
        DataType::Int128
    }

    fn into_value(self) -> (r: Value) {
        Value::Int128(self)
    }

    fn from_value(value: &Value) -> (r: Option<Self>) {
        match value {
            Value::Int128(x) => Some(*x),
            _ => None,
        }
    }

    fn duplicate_element(&self) -> (r: Self) {
        *self
    }

    proof fn lemma_element_typed(x: Self) {
    }
}

impl ValueElement for u8 {
    open spec fn element_data_type() -> DataType {
        DataType::UInt8
    }

    open spec fn element_model(self) -> ValueModel {
        ValueModel::UInt8(self)
    }

    fn element_type() -> (r: DataType) {
        DataType::UInt8
    }

    fn into_value(self) -> (r: Value) {
        Value::UInt8(self)
    }

    fn from_value(value: &Value) -> (r: Option<Self>) {
        match value {
            Value::UInt8(x) => Some(*x),
            _ => None,
        }
    }

    fn duplicate_element(&self) -> (r: Self) {
        *self
    }

    proof fn lemma_element_typed(x: Self) {
    }
}

impl ValueElement for u16 {
    open spec fn element_data_type() -> DataType {
        DataType::UInt16
    }

    open spec fn element_model(self) -> ValueModel {
        ValueModel::UInt16(self)
    }

    fn element_type() -> (r: DataType) {
        DataType::UInt16
    }

    fn into_value(self) -> (r: Value) {
        Value::UInt16(self)
    }

    fn from_value(value: &Value) -> (r: Option<Self>) {
        match value {
            Value::UInt16(x) => Some(*x),
            _ => None,
        }
    }

    fn duplicate_element(&self) -> (r: Self) {
        *self
    }

    proof fn lemma_element_typed(x: Self) {
    }
}

impl ValueElement for u32 {
    open spec fn element_data_type() -> DataType {
        DataType::UInt32
    }

    open spec fn element_model(self) -> ValueModel {
        ValueModel::UInt32(self)
    }

    fn element_type() -> (r: DataType) {
        DataType::UInt32
    }

    fn into_value(self) -> (r: Value) {
        Value::UInt32(self)
    }

    fn from_value(value: &Value) -> (r: Option<Self>) {
        match value {
            Value::UInt32(x) => Some(*x),
            _ => None,
        }
    }

    fn duplicate_element(&self) -> (r: Self) {
        *self
    }

    proof fn lemma_element_typed(x: Self) {
    }
}

impl ValueElement for u64 {
    open spec fn element_data_type() -> DataType {
        DataType::UInt64
    }

    open spec fn element_model(self) -> ValueModel {
        ValueModel::UInt64(self)
    }

    fn element_type() -> (r: DataType) {
        DataType::UInt64
    }

    fn into_value(self) -> (r: Value) {
        Value::UInt64(self)
    }

    fn from_value(value: &Value) -> (r: Option<Self>) {
        match value {
            Value::UInt64(x) => Some(*x),
            _ => None,
        }
    }

    fn duplicate_element(&self) -> (r: Self) {
        *self
    }

    proof fn lemma_element_typed(x: Self) {
    }
}

impl ValueElement for u128 {
    open spec fn element_data_type() -> DataType {
        DataType::UInt128
    }

    open spec fn element_model(self) -> ValueModel {
        ValueModel::UInt128(self)
    }

    fn element_type() -> (r: DataType) {
        DataType::UInt128
    }

    fn into_value(self) -> (r: Value) {
        Value::UInt128(self)
    }

    fn from_value(value: &Value) -> (r: Option<Self>) {
        match value {
            Value::UInt128(x) => Some(*x),
            _ => None,
        }
    }

    fn duplicate_element(&self) -> (r: Self) {
        *self
    }

    proof fn lemma_element_typed(x: Self) {
    }
}

impl ValueElement for Float32Value {
    open spec fn element_data_type() -> DataType {
        DataType::Float32
    }

    open spec fn element_model(self) -> ValueModel {
        ValueModel::Float32(self)
    }

    fn element_type() -> (r: DataType) {
        DataType::Float32
    }

    fn into_value(self) -> (r: Value) {
        Value::Float32(self)
    }

    fn from_value(value: &Value) -> (r: Option<Self>) {
        match value {
            Value::Float32(x) => Some(*x),
            _ => None,
        }
    }

    fn duplicate_element(&self) -> (r: Self) {
        *self
    }

    proof fn lemma_element_typed(x: Self) {
    }
}

impl ValueElement for Float64Value {
    open spec fn element_data_type() -> DataType {
        DataType::Float64
    }

    open spec fn element_model(self) -> ValueModel {
        ValueModel::Float64(self)
    }

    fn element_type() -> (r: DataType) {
        DataType::Float64
    }

    fn into_value(self) -> (r: Value) {
        Value::Float64(self)
    }

    fn from_value(value: &Value) -> (r: Option<Self>) {
        match value {
            Value::Float64(x) => Some(*x),
            _ => None,
        }
    }

    fn duplicate_element(&self) -> (r: Self) {
        *self
    }

    proof fn lemma_element_typed(x: Self) {
    }
}

impl ValueElement for String {
    open spec fn element_data_type() -> DataType {
        DataType::String
    }

    open spec fn element_model(self) -> ValueModel {
        ValueModel::String(self@)
    }

    fn element_type() -> (r: DataType) {
        DataType::String
    }

    fn into_value(self) -> (r: Value) {
        Value::String(self)
    }

    fn from_value(value: &Value) -> (r: Option<Self>) {
        match value {
            Value::String(x) => Some(x.clone()),
            _ => None,
        }
    }

    fn duplicate_element(&self) -> (r: Self) {
        self.clone()
    }

    proof fn lemma_element_typed(x: Self) {
    }
}

impl ValueElement for DateValue {
    open spec fn element_data_type() -> DataType {
        DataType::Date
    }

    open spec fn element_model(self) -> ValueModel {
        ValueModel::Date(self)
    }

    fn element_type() -> (r: DataType) {
        DataType::Date
    }

    fn into_value(self) -> (r: Value) {
        Value::Date(self)
    }

    fn from_value(value: &Value) -> (r: Option<Self>) {
        match value {
            Value::Date(x) => Some(*x),
            _ => None,
        }
    }

    fn duplicate_element(&self) -> (r: Self) {
        *self
    }

    proof fn lemma_element_typed(x: Self) {
    }
}

impl ValueElement for TimeValue {
    open spec fn element_data_type() -> DataType {
        DataType::Time
    }

    open spec fn element_model(self) -> ValueModel {
        ValueModel::Time(self)
    }

    fn element_type() -> (r: DataType) {
        DataType::Time
    }

    fn into_value(self) -> (r: Value) {
        Value::Time(self)
    }

    fn from_value(value: &Value) -> (r: Option<Self>) {
        match value {
            Value::Time(x) => Some(*x),
            _ => None,
        }
    }

    fn duplicate_element(&self) -> (r: Self) {
        *self
    }

    proof fn lemma_element_typed(x: Self) {
    }
}

impl ValueElement for DateTimeValue {
    open spec fn element_data_type() -> DataType {
        DataType::DateTime
    }

    open spec fn element_model(self) -> ValueModel {
        ValueModel::DateTime(self)
    }

    fn element_type() -> (r: DataType) {
        DataType::DateTime
    }

    fn into_value(self) -> (r: Value) {
        Value::DateTime(self)
    }

    fn from_value(value: &Value) -> (r: Option<Self>) {
        match value {
            Value::DateTime(x) => Some(*x),
            _ => None,
        }
    }

    fn duplicate_element(&self) -> (r: Self) {
        *self
    }

    proof fn lemma_element_typed(x: Self) {
    }
}

impl ValueElement for InstantValue {
    open spec fn element_data_type() -> DataType {
        DataType::Instant
    }

    open spec fn element_model(self) -> ValueModel {
        ValueModel::Instant(self)
    }

    fn element_type() -> (r: DataType) {
        DataType::Instant
    }

    fn into_value(self) -> (r: Value) {
        Value::Instant(self)
    }

    fn from_value(value: &Value) -> (r: Option<Self>) {
        match value {
            Value::Instant(x) => Some(*x),
            _ => None,
        }
    }

    fn duplicate_element(&self) -> (r: Self) {
        *self
    }

    proof fn lemma_element_typed(x: Self) {
    }
}

impl ValueElement for BigIntegerValue {
    open spec fn element_data_type() -> DataType {
        DataType::BigInteger
    }

    open spec fn element_model(self) -> ValueModel {
        ValueModel::BigInteger(self@)
    }

    fn element_type() -> (r: DataType) {
        DataType::BigInteger
    }

    fn into_value(self) -> (r: Value) {
        Value::BigInteger(self)
    }

    fn from_value(value: &Value) -> (r: Option<Self>) {
        match value {
            Value::BigInteger(x) => Some(x.duplicate()),
            _ => None,
        }
    }

    fn duplicate_element(&self) -> (r: Self) {
        self.duplicate()
    }

    proof fn lemma_element_typed(x: Self) {
    }
}

impl ValueElement for BigDecimalValue {
    open spec fn element_data_type() -> DataType {
        DataType::BigDecimal
    }

    open spec fn element_model(self) -> ValueModel {
        ValueModel::BigDecimal(self@)
    }

    fn element_type() -> (r: DataType) {
        DataType::BigDecimal
    }

    fn into_value(self) -> (r: Value) {
        Value::BigDecimal(self)
    }

    fn from_value(value: &Value) -> (r: Option<Self>) {
        match value {
            Value::BigDecimal(x) => Some(x.duplicate()),
            _ => None,
        }
    }

    fn duplicate_element(&self) -> (r: Self) {
        self.duplicate()
    }

    proof fn lemma_element_typed(x: Self) {
    }
}

impl ValueElement for DurationValue {
    open spec fn element_data_type() -> DataType {
        DataType::Duration
    }

    open spec fn element_model(self) -> ValueModel {
        ValueModel::Duration(self)
    }

    fn element_type() -> (r: DataType) {
        DataType::Duration
    }

    fn into_value(self) -> (r: Value) {
        Value::Duration(self)
    }

    fn from_value(value: &Value) -> (r: Option<Self>) {
        match value {
            Value::Duration(x) => Some(*x),
            _ => None,
        }
    }

    fn duplicate_element(&self) -> (r: Self) {
        *self
    }

    proof fn lemma_element_typed(x: Self) {
    }
}

impl ValueElement for UrlValue {
    open spec fn element_data_type() -> DataType {
        DataType::Url
    }

    open spec fn element_model(self) -> ValueModel {
        ValueModel::Url(self@)
    }

    fn element_type() -> (r: DataType) {
        DataType::Url
    }

    fn into_value(self) -> (r: Value) {
        Value::Url(self)
    }

    fn from_value(value: &Value) -> (r: Option<Self>) {
        match value {
            Value::Url(x) => Some(x.duplicate()),
            _ => None,
        }
    }

    fn duplicate_element(&self) -> (r: Self) {
        self.duplicate()
    }

    proof fn lemma_element_typed(x: Self) {
    }
}

impl ValueElement for StringMapValue {
    open spec fn element_data_type() -> DataType {
        DataType::StringMap
    }

    open spec fn element_model(self) -> ValueModel {
        ValueModel::StringMap(self@)
    }

    fn element_type() -> (r: DataType) {
        DataType::StringMap
    }

    fn into_value(self) -> (r: Value) {
        Value::StringMap(self)
    }

    fn from_value(value: &Value) -> (r: Option<Self>) {
        match value {
            Value::StringMap(x) => Some(x.duplicate()),
            _ => None,
        }
    }

    fn duplicate_element(&self) -> (r: Self) {
        self.duplicate()
    }

    proof fn lemma_element_typed(x: Self) {
    }
}

impl ValueElement for JsonValue {
    open spec fn element_data_type() -> DataType {
        DataType::Json
    }

    open spec fn element_model(self) -> ValueModel {
        ValueModel::Json(self@)
    }

    fn element_type() -> (r: DataType) {
        DataType::Json
    }

    fn into_value(self) -> (r: Value) {
        Value::Json(self)
    }

    fn from_value(value: &Value) -> (r: Option<Self>) {
        match value {
            Value::Json(x) => Some(x.duplicate()),
            _ => None,
        }
    }

    fn duplicate_element(&self) -> (r: Self) {
        self.duplicate()
    }

    proof fn lemma_element_typed(x: Self) {
    }
}

/// An element stands for itself: the value it becomes is the value of its
/// own type holding that very payload, so a collection built from elements
/// stores each element as given.
pub proof fn lemma_element_is_its_value()
    ensures
        forall|x: bool| #[trigger] x.element_model() == ValueModel::Bool(x),
        forall|x: char| #[trigger] x.element_model() == ValueModel::Char(x),
        forall|x: i8| #[trigger] x.element_model() == ValueModel::Int8(x),
        forall|x: i16| #[trigger] x.element_model() == ValueModel::Int16(x),
        forall|x: i32| #[trigger] x.element_model() == ValueModel::Int32(x),
        forall|x: i64| #[trigger] x.element_model() == ValueModel::Int64(x),
        forall|x: i128| #[trigger] x.element_model() == ValueModel::Int128(x),
        forall|x: u8| #[trigger] x.element_model() == ValueModel::UInt8(x),
        forall|x: u16| #[trigger] x.element_model() == ValueModel::UInt16(x),
        forall|x: u32| #[trigger] x.element_model() == ValueModel::UInt32(x),
        forall|x: u64| #[trigger] x.element_model() == ValueModel::UInt64(x),
        forall|x: u128| #[trigger] x.element_model() == ValueModel::UInt128(x),
        forall|x: Float32Value| #[trigger] x.element_model() == ValueModel::Float32(x),
        forall|x: Float64Value| #[trigger] x.element_model() == ValueModel::Float64(x),
        forall|x: DateValue| #[trigger] x.element_model() == ValueModel::Date(x),
        forall|x: TimeValue| #[trigger] x.element_model() == ValueModel::Time(x),
        forall|x: DateTimeValue| #[trigger] x.element_model() == ValueModel::DateTime(x),
        forall|x: InstantValue| #[trigger] x.element_model() == ValueModel::Instant(x),
        forall|x: DurationValue| #[trigger] x.element_model() == ValueModel::Duration(x),
        forall|x: String| #[trigger] x.element_model() == ValueModel::String(x@),
        forall|x: BigIntegerValue| #[trigger] x.element_model() == ValueModel::BigInteger(x@),
        forall|x: BigDecimalValue| #[trigger] x.element_model() == ValueModel::BigDecimal(x@),
        forall|x: UrlValue| #[trigger] x.element_model() == ValueModel::Url(x@),
        forall|x: StringMapValue| #[trigger] x.element_model() == ValueModel::StringMap(x@),
        forall|x: JsonValue| #[trigger] x.element_model() == ValueModel::Json(x@),
{
}

/// Each element type belongs to the data type of the same name.
pub proof fn lemma_element_data_types()
    ensures
        <bool as ValueElement>::element_data_type() == DataType::Bool,
        <char as ValueElement>::element_data_type() == DataType::Char,
        <i8 as ValueElement>::element_data_type() == DataType::Int8,
        <i16 as ValueElement>::element_data_type() == DataType::Int16,
        <i32 as ValueElement>::element_data_type() == DataType::Int32,
        <i64 as ValueElement>::element_data_type() == DataType::Int64,
        <i128 as ValueElement>::element_data_type() == DataType::Int128,
        <u8 as ValueElement>::element_data_type() == DataType::UInt8,
        <u16 as ValueElement>::element_data_type() == DataType::UInt16,
        <u32 as ValueElement>::element_data_type() == DataType::UInt32,
        <u64 as ValueElement>::element_data_type() == DataType::UInt64,
        <u128 as ValueElement>::element_data_type() == DataType::UInt128,
        <Float32Value as ValueElement>::element_data_type() == DataType::Float32,
        <Float64Value as ValueElement>::element_data_type() == DataType::Float64,
        <DateValue as ValueElement>::element_data_type() == DataType::Date,
        <TimeValue as ValueElement>::element_data_type() == DataType::Time,
        <DateTimeValue as ValueElement>::element_data_type() == DataType::DateTime,
        <InstantValue as ValueElement>::element_data_type() == DataType::Instant,
        <DurationValue as ValueElement>::element_data_type() == DataType::Duration,
        <String as ValueElement>::element_data_type() == DataType::String,
        <BigIntegerValue as ValueElement>::element_data_type() == DataType::BigInteger,
        <BigDecimalValue as ValueElement>::element_data_type() == DataType::BigDecimal,
        <UrlValue as ValueElement>::element_data_type() == DataType::Url,
        <StringMapValue as ValueElement>::element_data_type() == DataType::StringMap,
        <JsonValue as ValueElement>::element_data_type() == DataType::Json,
{
}

} // verus!

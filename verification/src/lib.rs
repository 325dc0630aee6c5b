//! Typed runtime values: scalars, homogeneous collections and named wrappers.
//!
//! A [`Value`] stores one typed scalar or an explicit `Unset(DataType)`
//! state. A [`MultiValues`] stores one homogeneous collection, distinguishing
//! an unset collection from a concrete empty one. [`NamedValue`] and
//! [`NamedMultiValues`] attach a name to either form.
//!
//! Reads are strict: a read of type `T` succeeds only on a collection of
//! type `T`, and reports an unset or empty collection as a missing value.
//! Appending checks the element type; replacing does not.
//!
//! Identity compares floats by canonical bits (the two zeros alike, every
//! NaN alike), big numbers by value, string maps as maps and JSON
//! structurally, and the identity hash agrees with it.
//!
//! Natural JSON projection turns a value or collection into plain JSON under
//! resource limits, charging every node before any output is kept.

pub mod big_number_hash;
pub mod conversion;
pub mod data_type;
pub mod element;
pub mod float_identity;
pub mod identity;
pub mod into_value_default;
pub mod json_budget;
pub mod json_projection;
pub mod natural_json;
pub mod json_value;
mod matching;
pub mod multi_values;
pub mod multi_values_access;
pub mod multi_values_constructor;
pub mod multi_values_identity;
pub mod named_multi_values;
pub mod named_value;
pub mod payload;
pub mod string_map;
pub mod value;
pub mod value_error;
pub mod value_hash;

pub use self::conversion::{ConversionKind, ConvertTarget};
pub use self::data_type::DataType;
pub use self::element::ValueElement;
pub use self::into_value_default::IntoValueDefault;
pub use self::json_budget::{BudgetResource, StructureBudget};
pub use self::json_projection::{ProjectionBudget, ProjectionLimits};
pub use self::json_value::{JsonNumber, JsonValue};
pub use self::natural_json::ProjectionFault;
pub use self::multi_values::{MultiValues, MultiValuesRef};
pub use self::multi_values_access::{
    MultiValuesAddArg,
    MultiValuesAdder,
    MultiValuesFirstGetter,
    MultiValuesMultiAdder,
    MultiValuesSetArg,
    MultiValuesSetter,
    MultiValuesSetterSlice,
    MultiValuesSingleSetter,
};
pub use self::multi_values_constructor::IntoMultiValues;
pub use self::named_multi_values::NamedMultiValues;
pub use self::named_value::{IntoName, NamedValue};
pub use self::payload::{
    BigDecimalValue,
    BigIntegerValue,
    DateTimeValue,
    DateValue,
    DurationValue,
    Float32Value,
    Float64Value,
    InstantValue,
    TimeValue,
    UrlValue,
};
pub use self::string_map::StringMapValue;
pub use self::value::Value;
pub use self::value_error::{ValueError, ValueMissing, ValueResult};

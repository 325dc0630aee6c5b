//! Errors of strict typed reads and of typed collection updates.

use vstd::prelude::*;

use crate::data_type::DataType;
use crate::conversion::ConversionKind;
use crate::json_budget::BudgetResource;

verus! {

/// Why a strict read found no value to return.
#[derive(Debug, Clone, Copy, PartialEq, Eq, Structural)]
pub enum ValueMissing {
    /// The collection is unset; it has a declared type but no concrete vector.
    UnsetCollection {
        /// Declared element type of the unset collection.
        data_type: DataType,
    },
    /// The collection is concrete but holds no element.
    EmptyCollection {
        /// Element type of the empty collection.
        data_type: DataType,
    },
}

impl ValueMissing {
    /// Tests whether the value is missing because the container is unset,
    /// as opposed to concrete and empty.
    pub fn is_unset(&self) -> (r: bool)
        ensures
            r == (*self is UnsetCollection),
    {
        match self {
            ValueMissing::UnsetCollection { .. } => true,
            ValueMissing::EmptyCollection { .. } => false,
        }
    }

    /// Returns the data type of the container that has no value.
    pub fn data_type(&self) -> (r: DataType)
        ensures
            r == match *self {
                ValueMissing::UnsetCollection { data_type } => data_type,
                ValueMissing::EmptyCollection { data_type } => data_type,
            },
    {
        match self {
            ValueMissing::UnsetCollection { data_type } => *data_type,
            ValueMissing::EmptyCollection { data_type } => *data_type,
        }
    }
}

/// Error of a strict typed read or of a typed collection update.
#[derive(Debug, Clone, Copy, PartialEq, Eq, Structural)]
pub enum ValueError {
    /// The requested type matches, but no value is stored.
    Missing(ValueMissing),
    /// The stored data type differs from the requested or appended one.
    TypeMismatch {
        /// Data type the operation required.
        expected: DataType,
        /// Data type actually stored or supplied.
        actual: DataType,
    },
    /// A converting read failed.
    Conversion {
        /// Data type of the value converted.
        from: DataType,
        /// Data type converted to.
        to: DataType,
        /// Why the conversion failed.
        kind: ConversionKind,
        /// Index of the collection element converted, if any.
        source_index: Option<usize>,
    },
    /// A JSON projection exceeded one of its limits.
    JsonProjectionLimit {
        /// Data type of the projected value or collection.
        data_type: DataType,
        /// Index of the collection element being projected, if any.
        source_index: Option<usize>,
        /// The resource whose limit was exceeded.
        resource: BudgetResource,
    },
    /// A value has no JSON projection: a non-finite float, or a payload the
    /// outside type refuses to render.
    JsonProjectionInvalid {
        /// Data type of the projected value or collection.
        data_type: DataType,
        /// Index of the collection element being projected, if any.
        source_index: Option<usize>,
    },
}

/// Result of a strict typed read or of a typed collection update.
pub type ValueResult<T> = Result<T, ValueError>;

} // verus!

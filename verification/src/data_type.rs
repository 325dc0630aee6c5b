//! The closed runtime type vocabulary shared by scalars and collections.

use vstd::prelude::*;

verus! {

/// Number of variants of [`DataType`].
pub const DATA_TYPE_COUNT: usize = 25;

/// Runtime data type of a scalar or of the elements of a collection.
///
/// The variants follow the declaration order of `qubit_datatype::DataType`.
#[derive(Debug, Clone, Copy, PartialEq, Eq, Hash, Structural)]
pub enum DataType {
    Bool,
    Char,
    Int8,
    Int16,
    Int32,
    Int64,
    Int128,
    UInt8,
    UInt16,
    UInt32,
    UInt64,
    UInt128,
    Float32,
    Float64,
    String,
    Date,
    Time,
    DateTime,
    Instant,
    BigInteger,
    BigDecimal,
    Duration,
    Url,
    StringMap,
    Json,
}

/// Position of a variant in the stable declaration order.
pub open spec fn spec_ordinal(dt: DataType) -> nat {
    match dt {
        DataType::Bool => 0,
        DataType::Char => 1,
        DataType::Int8 => 2,
        DataType::Int16 => 3,
        DataType::Int32 => 4,
        DataType::Int64 => 5,
        DataType::Int128 => 6,
        DataType::UInt8 => 7,
        DataType::UInt16 => 8,
        DataType::UInt32 => 9,
        DataType::UInt64 => 10,
        DataType::UInt128 => 11,
        DataType::Float32 => 12,
        DataType::Float64 => 13,
        DataType::String => 14,
        DataType::Date => 15,
        DataType::Time => 16,
        DataType::DateTime => 17,
        DataType::Instant => 18,
        DataType::BigInteger => 19,
        DataType::BigDecimal => 20,
        DataType::Duration => 21,
        DataType::Url => 22,
        DataType::StringMap => 23,
        DataType::Json => 24,
    }
}

/// Whether the variant at `ordinal` of the declaration order is numeric:
/// fixed-width integers, primitive floats and big numbers.
pub open spec fn numeric_ordinal(ordinal: nat) -> bool {
    (2 <= ordinal && ordinal <= 13) || ordinal == 19 || ordinal == 20
}

impl DataType {
    /// Whether this type belongs to the numeric family.
    pub open spec fn spec_is_numeric(self) -> bool {
        numeric_ordinal(spec_ordinal(self))
    }

    /// Returns the position of this variant in the stable declaration order.
    pub fn ordinal(self) -> (r: usize)
        ensures
            r == spec_ordinal(self),
            r < DATA_TYPE_COUNT,
    {
        match self {
            DataType::Bool => 0,
            DataType::Char => 1,
            DataType::Int8 => 2,
            DataType::Int16 => 3,
            DataType::Int32 => 4,
            DataType::Int64 => 5,
            DataType::Int128 => 6,
            DataType::UInt8 => 7,
            DataType::UInt16 => 8,
            DataType::UInt32 => 9,
            DataType::UInt64 => 10,
            DataType::UInt128 => 11,
            DataType::Float32 => 12,
            DataType::Float64 => 13,
            DataType::String => 14,
            DataType::Date => 15,
            DataType::Time => 16,
            DataType::DateTime => 17,
            DataType::Instant => 18,
            DataType::BigInteger => 19,
            DataType::BigDecimal => 20,
            DataType::Duration => 21,
            DataType::Url => 22,
            DataType::StringMap => 23,
            DataType::Json => 24,
        }
    }

    /// Returns the variant at position `ordinal` of the declaration order,
    /// if there is one.
    pub fn from_ordinal(ordinal: usize) -> (r: Option<DataType>)
        ensures
            r is Some <==> ordinal < DATA_TYPE_COUNT,
            r matches Some(dt) ==> spec_ordinal(dt) == ordinal,
    {
        match ordinal {
            0 => Some(DataType::Bool),
            1 => Some(DataType::Char),
            2 => Some(DataType::Int8),
            3 => Some(DataType::Int16),
            4 => Some(DataType::Int32),
            5 => Some(DataType::Int64),
            6 => Some(DataType::Int128),
            7 => Some(DataType::UInt8),
            8 => Some(DataType::UInt16),
            9 => Some(DataType::UInt32),
            10 => Some(DataType::UInt64),
            11 => Some(DataType::UInt128),
            12 => Some(DataType::Float32),
            13 => Some(DataType::Float64),
            14 => Some(DataType::String),
            15 => Some(DataType::Date),
            16 => Some(DataType::Time),
            17 => Some(DataType::DateTime),
            18 => Some(DataType::Instant),
            19 => Some(DataType::BigInteger),
            20 => Some(DataType::BigDecimal),
            21 => Some(DataType::Duration),
            22 => Some(DataType::Url),
            23 => Some(DataType::StringMap),
            24 => Some(DataType::Json),
            _ => None,
        }
    }

    /// Tests whether this type belongs to the numeric family: fixed-width
    /// integers, primitive floats and big numbers.
    pub fn is_numeric(self) -> (r: bool)
        ensures
            r == self.spec_is_numeric(),
    {
        numeric_at(self.ordinal())
    }
}

/// Calls `qubit_datatype::DataType::is_numeric` on the variant at `ordinal`
/// of `qubit_datatype::DataType::ALL`.
///
/// Trusted claim: `ALL` lists the variants in declaration order, and
/// `is_numeric` is true exactly for the signed and unsigned fixed-width
/// integers, the two primitive floats, `BigInteger` and `BigDecimal`.
#[verifier::external_body]
fn numeric_at(ordinal: usize) -> (r: bool)
    requires
        ordinal < DATA_TYPE_COUNT,
    ensures
        r == numeric_ordinal(ordinal as nat),
{
    qubit_datatype::DataType::ALL[ordinal].is_numeric()
}

} // verus!

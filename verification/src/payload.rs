//! Plain-value payloads for the scalar types whose Rust representation lives
//! in an outside crate or is a float.
//!
//! Each payload holds, as integers and strings, exactly what the library's
//! logic reads: floats by their bit pattern, calendar values by their
//! counters, big numbers by their limbs and scale, URLs by their serialized
//! text.

use vstd::arithmetic::power::pow;
use vstd::prelude::*;

use crate::float_identity::{
    f32_is_finite,
    f64_is_finite,
    canonical_f32_bits,
    canonical_f64_bits,
    spec_canonical_f32_bits,
    spec_canonical_f64_bits,
};

verus! {

/// A 32-bit binary float, held by its IEEE-754 bit pattern.
#[derive(Debug, Clone, Copy)]
pub struct Float32Value {
    /// IEEE-754 bit pattern (`f32::to_bits`).
    pub bits: u32,
}

/// A 64-bit binary float, held by its IEEE-754 bit pattern.
#[derive(Debug, Clone, Copy)]
pub struct Float64Value {
    /// IEEE-754 bit pattern (`f64::to_bits`).
    pub bits: u64,
}

impl Float32Value {
    /// Tests whether the float is neither NaN nor an infinity.
    pub fn is_finite(&self) -> (r: bool)
        ensures
            r == f32_is_finite(self.bits),
    {
        self.bits & 0x7f80_0000 != 0x7f80_0000
    }

    /// Identity of two floats: equal canonical bits (zeros and NaNs collapse).
    pub open spec fn spec_same(self, other: Self) -> bool {
        spec_canonical_f32_bits(self.bits) == spec_canonical_f32_bits(other.bits)
    }

    /// Tests whether two floats have the same canonical identity.
    pub fn same(&self, other: &Self) -> (r: bool)
        ensures
            r == self.spec_same(*other),
    {
        canonical_f32_bits(self.bits) == canonical_f32_bits(other.bits)
    }
}

impl Float64Value {
    /// Tests whether the float is neither NaN nor an infinity.
    pub fn is_finite(&self) -> (r: bool)
        ensures
            r == f64_is_finite(self.bits),
    {
        self.bits & 0x7ff0_0000_0000_0000 != 0x7ff0_0000_0000_0000
    }

    /// Identity of two floats: equal canonical bits (zeros and NaNs collapse).
    pub open spec fn spec_same(self, other: Self) -> bool {
        spec_canonical_f64_bits(self.bits) == spec_canonical_f64_bits(other.bits)
    }

    /// Tests whether two floats have the same canonical identity.
    pub fn same(&self, other: &Self) -> (r: bool)
        ensures
            r == self.spec_same(*other),
    {
        canonical_f64_bits(self.bits) == canonical_f64_bits(other.bits)
    }
}

/// A calendar date (`chrono::NaiveDate`), as days since 0001-01-01 counted
/// from 1 (`num_days_from_ce`).
#[derive(Debug, Clone, Copy, PartialEq, Eq, Hash, Structural)]
pub struct DateValue {
    /// Day number in the proleptic Gregorian calendar.
    pub days_from_ce: i32,
}

/// A time of day (`chrono::NaiveTime`).
#[derive(Debug, Clone, Copy, PartialEq, Eq, Hash, Structural)]
pub struct TimeValue {
    /// Seconds since midnight.
    pub secs_from_midnight: u32,
    /// Nanoseconds within the second (a leap second reaches past one second).
    pub nanos: u32,
}

/// A date and local time (`chrono::NaiveDateTime`).
#[derive(Debug, Clone, Copy, PartialEq, Eq, Hash, Structural)]
pub struct DateTimeValue {
    /// Calendar date.
    pub date: DateValue,
    /// Time of day.
    pub time: TimeValue,
}

/// A UTC time point (`chrono::DateTime<chrono::Utc>`), by its UTC date and
/// time.
#[derive(Debug, Clone, Copy, PartialEq, Eq, Hash, Structural)]
pub struct InstantValue {
    /// UTC date and time.
    pub utc: DateTimeValue,
}

/// A non-negative time span (`std::time::Duration`).
#[derive(Debug, Clone, Copy, PartialEq, Eq, Hash, Structural)]
pub struct DurationValue {
    /// Whole seconds.
    pub secs: u64,
    /// Sub-second nanoseconds, below one billion.
    pub nanos: u32,
}

/// An arbitrary-precision integer (`num_bigint::BigInt`): sign and magnitude
/// as little-endian base-2^32 limbs (`to_u32_digits`).
#[derive(Debug, Clone)]
pub struct BigIntegerValue {
    /// Whether the integer is negative.
    pub negative: bool,
    /// Magnitude limbs, least significant first.
    pub magnitude: Vec<u32>,
}

/// An arbitrary-precision decimal (`bigdecimal::BigDecimal`):
/// `coefficient * 10^(-scale)`.
#[derive(Debug, Clone)]
pub struct BigDecimalValue {
    /// Unscaled coefficient.
    pub coefficient: BigIntegerValue,
    /// Decimal exponent, negated.
    pub scale: i64,
}

/// A parsed URL (`url::Url`), held by its serialization.
#[derive(Debug, Clone)]
pub struct UrlValue {
    /// Serialized URL text (`Url::as_str`).
    pub text: String,
}

/// Value of little-endian base-2^32 limbs.
pub open spec fn limbs_value(limbs: Seq<u32>) -> nat
    decreases limbs.len(),
{
    if limbs.len() == 0 {
        0
    } else {
        limbs[0] as nat + 0x1_0000_0000 * limbs_value(limbs.drop_first())
    }
}

/// Integer value of a sign flag and magnitude limbs.
pub open spec fn signed_value(model: (bool, Seq<u32>)) -> int {
    if model.0 {
        -(limbs_value(model.1) as int)
    } else {
        limbs_value(model.1) as int
    }
}

/// Two decimals `a.0 * 10^(-a.1)` and `b.0 * 10^(-b.1)` denote the same
/// number.
pub open spec fn decimal_values_equal(a: (int, int), b: (int, int)) -> bool {
    if a.1 >= b.1 {
        a.0 == b.0 * pow(10, (a.1 - b.1) as nat)
    } else {
        b.0 == a.0 * pow(10, (b.1 - a.1) as nat)
    }
}

/// Model of a big decimal: its coefficient model and scale.
pub type BigDecimalModel = ((bool, Seq<u32>), i64);

/// Numeric value of a big decimal as (integer coefficient, scale).
pub open spec fn decimal_of(m: BigDecimalModel) -> (int, int) {
    (signed_value(m.0), m.1 as int)
}

impl View for BigIntegerValue {
    type V = (bool, Seq<u32>);

    open spec fn view(&self) -> (bool, Seq<u32>) {
        (self.negative, self.magnitude@)
    }
}

impl View for BigDecimalValue {
    type V = BigDecimalModel;

    open spec fn view(&self) -> BigDecimalModel {
        (self.coefficient@, self.scale)
    }
}

impl View for UrlValue {
    type V = Seq<char>;

    open spec fn view(&self) -> Seq<char> {
        self.text@
    }
}

impl BigIntegerValue {
    /// Returns an equal copy.
    pub fn duplicate(&self) -> (r: Self)
        ensures
            r@ == self@,
    {
        let magnitude = self.magnitude.clone();
        assert(magnitude@ =~= self.magnitude@);
        BigIntegerValue { negative: self.negative, magnitude }
    }

    /// Tests numeric equality of two big integers.
    pub fn same(&self, other: &Self) -> (r: bool)
        ensures
            r == (signed_value(self@) == signed_value(other@)),
    {
        big_integer_eq(self, other)
    }
}

impl BigDecimalValue {
    /// Returns an equal copy.
    pub fn duplicate(&self) -> (r: Self)
        ensures
            r@ == self@,
    {
        BigDecimalValue { coefficient: self.coefficient.duplicate(), scale: self.scale }
    }

    /// Tests numeric equality of two big decimals: `1.0` equals `1.00`.
    pub fn same(&self, other: &Self) -> (r: bool)
        ensures
            r == decimal_values_equal(decimal_of(self@), decimal_of(other@)),
    {
        big_decimal_eq(self, other)
    }
}

impl UrlValue {
    /// Returns an equal copy.
    pub fn duplicate(&self) -> (r: Self)
        ensures
            r@ == self@,
    {
        UrlValue { text: self.text.clone() }
    }

    /// Tests whether two URLs have the same serialization.
    pub fn same(&self, other: &Self) -> (r: bool)
        ensures
            r == (self@ == other@),
    {
        self.text == other.text
    }
}

/// Calls `num_bigint::BigInt`'s `==` on the two integers built with
/// `BigInt::from_slice` from each sign flag and magnitude limbs.
///
/// Trusted claim: `from_slice` builds the integer whose magnitude is the
/// value of the little-endian limbs, negated for `Sign::Minus`, and `==`
/// compares integers by value.
#[verifier::external_body]
fn big_integer_eq(a: &BigIntegerValue, b: &BigIntegerValue) -> (r: bool)
    ensures
        r == (signed_value(a@) == signed_value(b@)),
{
    let sign = |negative: bool| if negative { num_bigint::Sign::Minus } else { num_bigint::Sign::Plus };
    let left = num_bigint::BigInt::from_slice(sign(a.negative), &a.magnitude);
    let right = num_bigint::BigInt::from_slice(sign(b.negative), &b.magnitude);
    left == right
}

/// Calls `bigdecimal::BigDecimal`'s `==` on the two decimals built with
/// `BigDecimal::new` from each coefficient (`BigInt::from_slice` of its sign
/// flag and limbs) and scale.
///
/// Trusted claim: `BigDecimal::new(c, s)` denotes `c * 10^(-s)`, and `==`
/// compares decimals by numeric value regardless of scale.
#[verifier::external_body]
fn big_decimal_eq(a: &BigDecimalValue, b: &BigDecimalValue) -> (r: bool)
    ensures
        r == decimal_values_equal(decimal_of(a@), decimal_of(b@)),
{
    let sign = |negative: bool| if negative { num_bigint::Sign::Minus } else { num_bigint::Sign::Plus };
    let left = bigdecimal::BigDecimal::new(
        num_bigint::BigInt::from_slice(sign(a.coefficient.negative), &a.coefficient.magnitude),
        a.scale,
    );
    let right = bigdecimal::BigDecimal::new(
        num_bigint::BigInt::from_slice(sign(b.coefficient.negative), &b.coefficient.magnitude),
        b.scale,
    );
    left == right
}

} // verus!

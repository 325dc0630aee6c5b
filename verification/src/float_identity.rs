//! Canonical identity of IEEE-754 binary floating-point values, computed on
//! their bit patterns.
//!
//! Signed zeros share one identity, every NaN shares one identity, and every
//! other value keeps its exact bit pattern.

use vstd::prelude::*;

verus! {

/// Bit pattern of the canonical `f32` zero (`0.0_f32.to_bits()`).
pub const F32_ZERO_BITS: u32 = 0;
/// Bit pattern of the canonical quiet `f32` NaN.
pub const F32_NAN_BITS: u32 = 0x7fc0_0000;
/// Bit pattern of the canonical `f64` zero (`0.0_f64.to_bits()`).
pub const F64_ZERO_BITS: u64 = 0;
/// Bit pattern of the canonical quiet `f64` NaN.
pub const F64_NAN_BITS: u64 = 0x7ff8_0000_0000_0000;

/// The `f32` with these bits is `+0.0` or `-0.0`.
pub open spec fn f32_is_zero(bits: u32) -> bool {
    bits & 0x7fff_ffff == 0
}

/// The `f32` with these bits is a NaN: all exponent bits set and a non-zero
/// fraction.
pub open spec fn f32_is_nan(bits: u32) -> bool {
    bits & 0x7f80_0000 == 0x7f80_0000 && bits & 0x007f_ffff != 0
}

/// The `f64` with these bits is `+0.0` or `-0.0`.
pub open spec fn f64_is_zero(bits: u64) -> bool {
    bits & 0x7fff_ffff_ffff_ffff == 0
}

/// The `f64` with these bits is a NaN.
pub open spec fn f64_is_nan(bits: u64) -> bool {
    bits & 0x7ff0_0000_0000_0000 == 0x7ff0_0000_0000_0000
        && bits & 0x000f_ffff_ffff_ffff != 0
}

/// The `f32` with these bits is finite: its exponent bits are not all set.
pub open spec fn f32_is_finite(bits: u32) -> bool {
    bits & 0x7f80_0000 != 0x7f80_0000
}

/// The `f64` with these bits is finite: its exponent bits are not all set.
pub open spec fn f64_is_finite(bits: u64) -> bool {
    bits & 0x7ff0_0000_0000_0000 != 0x7ff0_0000_0000_0000
}

/// Canonical identity bits of an `f32`.
pub open spec fn spec_canonical_f32_bits(bits: u32) -> u32 {
    if f32_is_zero(bits) {
        F32_ZERO_BITS
    } else if f32_is_nan(bits) {
        F32_NAN_BITS
    } else {
        bits
    }
}

/// Canonical identity bits of an `f64`.
pub open spec fn spec_canonical_f64_bits(bits: u64) -> u64 {
    if f64_is_zero(bits) {
        F64_ZERO_BITS
    } else if f64_is_nan(bits) {
        F64_NAN_BITS
    } else {
        bits
    }
}

/// IEEE-754 `==` on two `f64` bit patterns: NaN equals nothing, the two
/// zeros are equal, every other value equals only itself.
pub open spec fn spec_f64_bits_eq(a: u64, b: u64) -> bool {
    (f64_is_zero(a) && f64_is_zero(b)) || (a == b && !f64_is_nan(a))
}

/// Returns the canonical identity bits of the `f32` whose bit pattern is
/// `bits`: both zeros map to `+0.0`, every NaN maps to one quiet NaN.
pub fn canonical_f32_bits(bits: u32) -> (r: u32)
    ensures
        r == spec_canonical_f32_bits(bits),
{
    if bits & 0x7fff_ffff == 0 {
        F32_ZERO_BITS
    } else if bits & 0x7f80_0000 == 0x7f80_0000 && bits & 0x007f_ffff != 0 {
        F32_NAN_BITS
    } else {
        bits
    }
}

/// Returns the canonical identity bits of the `f64` whose bit pattern is
/// `bits`: both zeros map to `+0.0`, every NaN maps to one quiet NaN.
pub fn canonical_f64_bits(bits: u64) -> (r: u64)
    ensures
        r == spec_canonical_f64_bits(bits),
{
    if bits & 0x7fff_ffff_ffff_ffff == 0 {
        F64_ZERO_BITS
    } else if bits & 0x7ff0_0000_0000_0000 == 0x7ff0_0000_0000_0000
        && bits & 0x000f_ffff_ffff_ffff != 0 {
        F64_NAN_BITS
    } else {
        bits
    }
}

/// IEEE-754 equality of two `f64` values given by their bit patterns.
pub fn f64_bits_eq(a: u64, b: u64) -> (r: bool)
    ensures
        r == spec_f64_bits_eq(a, b),
{
    let a_zero = a & 0x7fff_ffff_ffff_ffff == 0;
    let b_zero = b & 0x7fff_ffff_ffff_ffff == 0;
    let a_nan = a & 0x7ff0_0000_0000_0000 == 0x7ff0_0000_0000_0000
        && a & 0x000f_ffff_ffff_ffff != 0;
    (a_zero && b_zero) || (a == b && !a_nan)
}

/// Two `f32` bit patterns have the same canonical identity exactly when both
/// are zeros, both are NaNs, or they are the same pattern.
pub proof fn lemma_canonical_f32_identity(a: u32, b: u32)
    ensures
        (spec_canonical_f32_bits(a) == spec_canonical_f32_bits(b)) <==> ((f32_is_zero(a)
            && f32_is_zero(b)) || (f32_is_nan(a) && f32_is_nan(b)) || a == b),
        spec_canonical_f32_bits(spec_canonical_f32_bits(a)) == spec_canonical_f32_bits(a),
{
    assert(!f32_is_zero(F32_NAN_BITS) && f32_is_nan(F32_NAN_BITS)) by (bit_vector);
    assert(f32_is_zero(F32_ZERO_BITS) && !f32_is_nan(F32_ZERO_BITS)) by (bit_vector);
    assert(f32_is_zero(a) ==> !f32_is_nan(a)) by (bit_vector);
    assert(f32_is_zero(b) ==> !f32_is_nan(b)) by (bit_vector);
}

/// Two `f64` bit patterns have the same canonical identity exactly when both
/// are zeros, both are NaNs, or they are the same pattern.
pub proof fn lemma_canonical_f64_identity(a: u64, b: u64)
    ensures
        (spec_canonical_f64_bits(a) == spec_canonical_f64_bits(b)) <==> ((f64_is_zero(a)
            && f64_is_zero(b)) || (f64_is_nan(a) && f64_is_nan(b)) || a == b),
        spec_canonical_f64_bits(spec_canonical_f64_bits(a)) == spec_canonical_f64_bits(a),
{
    assert(!f64_is_zero(F64_NAN_BITS) && f64_is_nan(F64_NAN_BITS)) by (bit_vector);
    assert(f64_is_zero(F64_ZERO_BITS) && !f64_is_nan(F64_ZERO_BITS)) by (bit_vector);
    assert(f64_is_zero(a) ==> !f64_is_nan(a)) by (bit_vector);
    assert(f64_is_zero(b) ==> !f64_is_nan(b)) by (bit_vector);
}

/// IEEE-754 equality implies equal canonical identity.
pub proof fn lemma_f64_eq_implies_same_identity(a: u64, b: u64)
    requires
        spec_f64_bits_eq(a, b),
    ensures
        spec_canonical_f64_bits(a) == spec_canonical_f64_bits(b),
{
    lemma_canonical_f64_identity(a, b);
}

} // verus!

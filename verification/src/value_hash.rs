//! Identity hashing of scalar values: a variant tag, then the payload
//! written so that identical payloads write identical bytes.

use std::collections::hash_map::DefaultHasher;
use std::hash::Hash;

use vstd::prelude::*;

use crate::big_number_hash::{
    big_decimal_writes,
    lemma_big_decimal_hash_consistent,
    big_integer_hash_writes,
    hash_big_decimal,
    hash_big_integer,
};
use crate::data_type::spec_ordinal;
use crate::float_identity::{
    canonical_f32_bits,
    canonical_f64_bits,
    spec_canonical_f32_bits,
    spec_canonical_f64_bits,
};
use crate::identity::{
    hash_json,
    hash_string_map,
    lemma_json_hash_consistent,
    lemma_string_map_hash_consistent,
    json_writes,
    string_map_writes,
    text_writes,
    u16_bytes,
    u32_bytes,
    u64_bytes,
    write_tag,
    write_text,
    write_u16,
    write_u32,
    write_u64,
};
use crate::payload::{signed_value, TimeValue};
use crate::value::{value_same, value_wf, Value, ValueModel};

verus! {

/// Writes of a time of day: seconds, then nanoseconds, each as a 32-bit
/// word, the fields of `chrono::NaiveTime` in order.
pub open spec fn time_writes(t: TimeValue) -> Seq<Seq<u8>> {
    seq![u32_bytes(t.secs_from_midnight), u32_bytes(t.nanos)]
}

/// Writes of the payload of a concrete value, each integer in its own
/// width as `Hash` writes it; an unset value writes its declared type.
pub open spec fn payload_writes(v: ValueModel) -> Seq<Seq<u8>> {
    match v {
        ValueModel::Unset(dt) => seq![u64_bytes(spec_ordinal(dt) as u64)],
        ValueModel::Bool(x) => seq![seq![if x { 1u8 } else { 0u8 }]],
        ValueModel::Char(x) => seq![u32_bytes(x as u32)],
        ValueModel::Int8(x) => seq![seq![x as u8]],
        ValueModel::Int16(x) => seq![u16_bytes(x as u16)],
        ValueModel::Int32(x) => seq![u32_bytes(x as u32)],
        ValueModel::Int64(x) => seq![u64_bytes(x as u64)],
        ValueModel::Int128(x) => seq![u64_bytes(x as u64), u64_bytes((x >> 64) as u64)],
        ValueModel::UInt8(x) => seq![seq![x]],
        ValueModel::UInt16(x) => seq![u16_bytes(x)],
        ValueModel::UInt32(x) => seq![u32_bytes(x)],
        ValueModel::UInt64(x) => seq![u64_bytes(x)],
        ValueModel::UInt128(x) => seq![u64_bytes(x as u64), u64_bytes((x >> 64) as u64)],
        ValueModel::Float32(x) => seq![u32_bytes(spec_canonical_f32_bits(x.bits))],
        ValueModel::Float64(x) => seq![u64_bytes(spec_canonical_f64_bits(x.bits))],
        ValueModel::String(x) => text_writes(x),
        ValueModel::Date(x) => date_hash_writes(x.days_from_ce),
        ValueModel::Time(x) => time_writes(x),
        ValueModel::DateTime(x) => date_hash_writes(x.date.days_from_ce) + time_writes(x.time),
        ValueModel::Instant(x) => date_hash_writes(x.utc.date.days_from_ce) + time_writes(x.utc.time),
        ValueModel::BigInteger(x) => big_integer_hash_writes(signed_value(x)),
        ValueModel::BigDecimal(x) => big_decimal_writes(x),
        ValueModel::Duration(x) => seq![u64_bytes(x.secs), u32_bytes(x.nanos)],
        ValueModel::Url(x) => text_writes(x),
        ValueModel::StringMap(x) => string_map_writes(x),
        ValueModel::Json(x) => json_writes(x),
    }
}

/// Bytes that `chrono::NaiveDate`'s `Hash` writes for the date of that day
/// number; the day number's own `Hash` bytes when chrono has no such date.
pub uninterp spec fn date_hash_writes(days_from_ce: i32) -> Seq<Seq<u8>>;

/// Hashes a date with `chrono::NaiveDate`'s `Hash`, on the date of
/// `NaiveDate::from_num_days_from_ce_opt`; a day number chrono has no date
/// for is hashed as an `i32`.
///
/// Trusted claim: the bytes written depend on the day number alone.
#[verifier::external_body]
fn hash_date(days_from_ce: i32, state: &mut DefaultHasher)
    ensures
        final(state)@ == old(state)@ + date_hash_writes(days_from_ce),
{
    match chrono::NaiveDate::from_num_days_from_ce_opt(days_from_ce) {
        Some(date) => date.hash(state),
        None => days_from_ce.hash(state),
    }
}

/// Hashes a time of day as `chrono::NaiveTime`'s fields.
fn hash_time(t: &TimeValue, state: &mut DefaultHasher)
    ensures
        final(state)@ == old(state)@ + time_writes(*t),
{
    write_u32(state, t.secs_from_midnight);
    write_u32(state, t.nanos);
    assert(final(state)@ =~= old(state)@ + time_writes(*t));
}

/// Variant tag of a value: zero for unset, otherwise one more than the
/// position of its data type.
pub open spec fn value_tag(v: ValueModel) -> u64 {
    if v is Unset {
        0
    } else {
        (spec_ordinal(v.data_type()) + 1) as u64
    }
}

/// Writes of a value: its variant tag, then its payload.
pub open spec fn value_writes(v: ValueModel) -> Seq<Seq<u8>> {
    seq![u64_bytes(value_tag(v))] + payload_writes(v)
}

/// Hashes the payload of a value.
pub fn hash_payload(value: &Value, state: &mut DefaultHasher)
    ensures
        final(state)@ == old(state)@ + payload_writes(value@),
{
    match value {
        Value::Unset(dt) => {
            write_u64(state, dt.ordinal() as u64);
        },
        Value::Bool(x) => {
            write_tag(state, if *x { 1 } else { 0 });
        },
        Value::Char(x) => {
            write_u32(state, *x as u32);
        },
        Value::Int8(x) => {
            write_tag(state, *x as u8);
        },
        Value::Int16(x) => {
            write_u16(state, *x as u16);
        },
        Value::Int32(x) => {
            write_u32(state, *x as u32);
        },
        Value::Int64(x) => {
            write_u64(state, *x as u64);
        },
        Value::Int128(x) => {
            write_u64(state, #[verifier::truncate] (*x as u64));
            write_u64(state, #[verifier::truncate] ((*x >> 64) as u64));
        },
        Value::UInt8(x) => {
            write_tag(state, *x);
        },
        Value::UInt16(x) => {
            write_u16(state, *x);
        },
        Value::UInt32(x) => {
            write_u32(state, *x);
        },
        Value::UInt64(x) => {
            write_u64(state, *x as u64);
        },
        Value::UInt128(x) => {
            write_u64(state, #[verifier::truncate] (*x as u64));
            write_u64(state, #[verifier::truncate] ((*x >> 64) as u64));
        },
        Value::Float32(x) => {
            write_u32(state, canonical_f32_bits(x.bits));
        },
        Value::Float64(x) => {
            write_u64(state, canonical_f64_bits(x.bits));
        },
        Value::String(x) => {
            write_text(state, x.as_str());
        },
        Value::Date(x) => {
            hash_date(x.days_from_ce, state);
        },
        Value::Time(x) => {
            hash_time(x, state);
        },
        Value::DateTime(x) => {
            hash_date(x.date.days_from_ce, state);
            hash_time(&x.time, state);
        },
        Value::Instant(x) => {
            hash_date(x.utc.date.days_from_ce, state);
            hash_time(&x.utc.time, state);
        },
        Value::BigInteger(x) => {
            hash_big_integer(x, state);
        },
        Value::BigDecimal(x) => {
            hash_big_decimal(x, state);
        },
        Value::Duration(x) => {
            write_u64(state, x.secs);
            write_u32(state, x.nanos);
        },
        Value::Url(x) => {
            write_text(state, x.text.as_str());
        },
        Value::StringMap(x) => {
            hash_string_map(x, state);
        },
        Value::Json(x) => {
            hash_json(x, state);
        },
    }
    assert(final(state)@ =~= old(state)@ + payload_writes(value@));
}

/// Hashes a value: its variant tag, then its payload.
pub fn hash_value(value: &Value, state: &mut DefaultHasher)
    ensures
        final(state)@ == old(state)@ + value_writes(value@),
{
    let tag: u64 = if value.is_unset() {
        0
    } else {
        value.data_type().ordinal() as u64 + 1
    };
    write_u64(state, tag);
    hash_payload(value, state);
    assert(final(state)@ =~= old(state)@ + value_writes(value@));
}

/// Equal little-endian 64-bit words are equal words.
proof fn lemma_u64_bytes_injective(x: u64, y: u64)
    requires
        u64_bytes(x) == u64_bytes(y),
    ensures
        x == y,
{
    assert(u64_bytes(x)[0] == u64_bytes(y)[0]);
    assert(u64_bytes(x)[1] == u64_bytes(y)[1]);
    assert(u64_bytes(x)[2] == u64_bytes(y)[2]);
    assert(u64_bytes(x)[3] == u64_bytes(y)[3]);
    assert(u64_bytes(x)[4] == u64_bytes(y)[4]);
    assert(u64_bytes(x)[5] == u64_bytes(y)[5]);
    assert(u64_bytes(x)[6] == u64_bytes(y)[6]);
    assert(u64_bytes(x)[7] == u64_bytes(y)[7]);
    assert(x == y) by (bit_vector)
        requires
            x as u8 == y as u8,
            (x >> 8) as u8 == (y >> 8) as u8,
            (x >> 16) as u8 == (y >> 16) as u8,
            (x >> 24) as u8 == (y >> 24) as u8,
            (x >> 32) as u8 == (y >> 32) as u8,
            (x >> 40) as u8 == (y >> 40) as u8,
            (x >> 48) as u8 == (y >> 48) as u8,
            (x >> 56) as u8 == (y >> 56) as u8,
    ;
}

/// Equal little-endian 32-bit words are equal words.
proof fn lemma_u32_bytes_injective(x: u32, y: u32)
    requires
        u32_bytes(x) == u32_bytes(y),
    ensures
        x == y,
{
    assert(u32_bytes(x)[0] == u32_bytes(y)[0]);
    assert(u32_bytes(x)[1] == u32_bytes(y)[1]);
    assert(u32_bytes(x)[2] == u32_bytes(y)[2]);
    assert(u32_bytes(x)[3] == u32_bytes(y)[3]);
    assert(x == y) by (bit_vector)
        requires
            x as u8 == y as u8,
            (x >> 8) as u8 == (y >> 8) as u8,
            (x >> 16) as u8 == (y >> 16) as u8,
            (x >> 24) as u8 == (y >> 24) as u8,
    ;
}

/// Equal little-endian 16-bit words are equal words.
proof fn lemma_u16_bytes_injective(x: u16, y: u16)
    requires
        u16_bytes(x) == u16_bytes(y),
    ensures
        x == y,
{
    assert(u16_bytes(x)[0] == u16_bytes(y)[0]);
    assert(u16_bytes(x)[1] == u16_bytes(y)[1]);
    assert(x == y) by (bit_vector)
        requires
            x as u8 == y as u8,
            (x >> 8) as u8 == (y >> 8) as u8,
    ;
}

/// The payload's bytes are written as they are, nothing dropped: for
/// booleans, characters, integers, floats, times and durations, two values
/// of one type that write the same payload bytes are the same value.
pub proof fn lemma_payload_writes_determine_value(a: ValueModel, b: ValueModel)
    requires
        payload_writes(a) == payload_writes(b),
    ensures
        (a is Bool && b is Bool) || (a is Char && b is Char) || (a is Int8 && b is Int8) || (a is Int16
            && b is Int16) || (a is Int32 && b is Int32) || (a is Int64 && b is Int64) || (a is Int128
            && b is Int128) || (a is UInt8 && b is UInt8) || (a is UInt16 && b is UInt16) || (a is UInt32
            && b is UInt32) || (a is UInt64 && b is UInt64) || (a is UInt128 && b is UInt128) || (a is Float32
            && b is Float32) || (a is Float64 && b is Float64) || (a is Time && b is Time) || (a is Duration
            && b is Duration) ==> value_same(a, b),
{
    match (a, b) {
        (ValueModel::Bool(x), ValueModel::Bool(y)) => {
            let bx: u8 = if x { 1u8 } else { 0u8 };
            let by: u8 = if y { 1u8 } else { 0u8 };
            assert(payload_writes(a) == seq![seq![bx]]);
            assert(payload_writes(b) == seq![seq![by]]);
            assert(seq![seq![bx]][0][0] == bx);
            assert(seq![seq![by]][0][0] == by);
            assert(payload_writes(a)[0][0] == payload_writes(b)[0][0]);
            assert(value_same(a, b));
        },
        (ValueModel::Char(x), ValueModel::Char(y)) => {
            assert(payload_writes(a)[0] == payload_writes(b)[0]);
            lemma_u32_bytes_injective(x as u32, y as u32);
            assert(value_same(a, b));
        },
        (ValueModel::Int8(x), ValueModel::Int8(y)) => {
            assert(payload_writes(a) == seq![seq![x as u8]]);
            assert(payload_writes(b) == seq![seq![y as u8]]);
            assert(seq![seq![x as u8]][0][0] == x as u8);
            assert(seq![seq![y as u8]][0][0] == y as u8);
            assert(payload_writes(a)[0][0] == payload_writes(b)[0][0]);
            assert(x == y) by (bit_vector)
                requires
                    x as u8 == y as u8,
            ;
            assert(value_same(a, b));
        },
        (ValueModel::Int16(x), ValueModel::Int16(y)) => {
            assert(payload_writes(a) == seq![u16_bytes(x as u16)]);
            assert(payload_writes(b) == seq![u16_bytes(y as u16)]);
            assert(payload_writes(a)[0] == payload_writes(b)[0]);
            lemma_u16_bytes_injective(x as u16, y as u16);
            assert(x == y) by (bit_vector)
                requires
                    x as u16 == y as u16,
            ;
            assert(value_same(a, b));
        },
        (ValueModel::Int32(x), ValueModel::Int32(y)) => {
            assert(payload_writes(a)[0] == payload_writes(b)[0]);
            lemma_u32_bytes_injective(x as u32, y as u32);
            assert(x == y) by (bit_vector)
                requires
                    x as u32 == y as u32,
            ;
            assert(value_same(a, b));
        },
        (ValueModel::Int64(x), ValueModel::Int64(y)) => {
            assert(payload_writes(a)[0] == payload_writes(b)[0]);
            lemma_u64_bytes_injective(x as u64, y as u64);
            assert(x == y) by (bit_vector)
                requires
                    x as u64 == y as u64,
            ;
            assert(value_same(a, b));
        },
        (ValueModel::Int128(x), ValueModel::Int128(y)) => {
            assert(payload_writes(a)[0] == payload_writes(b)[0]);
            assert(payload_writes(a)[1] == payload_writes(b)[1]);
            lemma_u64_bytes_injective(x as u64, y as u64);
            lemma_u64_bytes_injective((x >> 64) as u64, (y >> 64) as u64);
            assert(x == y) by (bit_vector)
                requires
                    x as u64 == y as u64,
                    (x >> 64) as u64 == (y >> 64) as u64,
            ;
            assert(value_same(a, b));
        },
        (ValueModel::UInt8(x), ValueModel::UInt8(y)) => {
            assert(payload_writes(a) == seq![seq![x]]);
            assert(payload_writes(b) == seq![seq![y]]);
            assert(seq![seq![x]][0][0] == x);
            assert(seq![seq![y]][0][0] == y);
            assert(payload_writes(a)[0][0] == payload_writes(b)[0][0]);
            assert(value_same(a, b));
        },
        (ValueModel::UInt16(x), ValueModel::UInt16(y)) => {
            assert(payload_writes(a)[0] == payload_writes(b)[0]);
            lemma_u16_bytes_injective(x, y);
            assert(value_same(a, b));
        },
        (ValueModel::UInt32(x), ValueModel::UInt32(y)) => {
            assert(payload_writes(a)[0] == payload_writes(b)[0]);
            lemma_u32_bytes_injective(x, y);
            assert(value_same(a, b));
        },
        (ValueModel::UInt64(x), ValueModel::UInt64(y)) => {
            assert(payload_writes(a)[0] == payload_writes(b)[0]);
            lemma_u64_bytes_injective(x, y);
            assert(value_same(a, b));
        },
        (ValueModel::UInt128(x), ValueModel::UInt128(y)) => {
            assert(payload_writes(a)[0] == payload_writes(b)[0]);
            assert(payload_writes(a)[1] == payload_writes(b)[1]);
            lemma_u64_bytes_injective(x as u64, y as u64);
            lemma_u64_bytes_injective((x >> 64) as u64, (y >> 64) as u64);
            assert(x == y) by (bit_vector)
                requires
                    x as u64 == y as u64,
                    (x >> 64) as u64 == (y >> 64) as u64,
            ;
            assert(value_same(a, b));
        },
        (ValueModel::Float32(x), ValueModel::Float32(y)) => {
            assert(payload_writes(a)[0] == payload_writes(b)[0]);
            lemma_u32_bytes_injective(spec_canonical_f32_bits(x.bits), spec_canonical_f32_bits(y.bits));
            assert(value_same(a, b));
        },
        (ValueModel::Float64(x), ValueModel::Float64(y)) => {
            assert(payload_writes(a)[0] == payload_writes(b)[0]);
            lemma_u64_bytes_injective(spec_canonical_f64_bits(x.bits), spec_canonical_f64_bits(y.bits));
            assert(value_same(a, b));
        },
        (ValueModel::Time(x), ValueModel::Time(y)) => {
            assert(payload_writes(a)[0] == payload_writes(b)[0]);
            assert(payload_writes(a)[1] == payload_writes(b)[1]);
            lemma_u32_bytes_injective(x.secs_from_midnight, y.secs_from_midnight);
            lemma_u32_bytes_injective(x.nanos, y.nanos);
            assert(value_same(a, b));
        },
        (ValueModel::Duration(x), ValueModel::Duration(y)) => {
            assert(payload_writes(a)[0] == payload_writes(b)[0]);
            assert(payload_writes(a)[1] == payload_writes(b)[1]);
            lemma_u64_bytes_injective(x.secs, y.secs);
            lemma_u32_bytes_injective(x.nanos, y.nanos);
            assert(value_same(a, b));
        },
        _ => {},
    }
}

/// Identical well-formed values write identical bytes: the identity hash
/// agrees with value identity (canonical floats, numeric big numbers,
/// order-free maps and JSON objects).
pub proof fn lemma_value_hash_consistent(a: ValueModel, b: ValueModel)
    requires
        value_wf(a),
        value_wf(b),
        value_same(a, b),
    ensures
        payload_writes(a) == payload_writes(b),
        value_writes(a) == value_writes(b),
{
    match (a, b) {
        (ValueModel::BigDecimal(x), ValueModel::BigDecimal(y)) => {
            lemma_big_decimal_hash_consistent(x, y);
        },
        (ValueModel::StringMap(x), ValueModel::StringMap(y)) => {
            lemma_string_map_hash_consistent(x, y);
        },
        (ValueModel::Json(x), ValueModel::Json(y)) => {
            lemma_json_hash_consistent(x, y);
        },
        _ => {},
    }
}

} // verus!

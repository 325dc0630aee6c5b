use std::collections::hash_map::DefaultHasher;
use std::hash::{Hash, Hasher};

use chrono::Datelike;

use qubit_value::big_number_hash::hash_big_decimal;
use qubit_value::float_identity::{canonical_f32_bits, canonical_f64_bits};
use qubit_value::json_value::json_eq;
use qubit_value::{
    BigDecimalValue,
    BigIntegerValue,
    DataType,
    Float32Value,
    Float64Value,
    JsonNumber,
    JsonValue,
    MultiValues,
    NamedMultiValues,
    NamedValue,
    StringMapValue,
    Value,
};

fn hash_of(values: &MultiValues) -> u64 {
    let mut state = DefaultHasher::new();
    values.hash_identity(&mut state);
    state.finish()
}

fn value_hash(value: &Value) -> u64 {
    let mut state = DefaultHasher::new();
    qubit_value::value_hash::hash_value(value, &mut state);
    state.finish()
}

fn big_int(negative: bool, limbs: Vec<u32>) -> BigIntegerValue {
    BigIntegerValue { negative, magnitude: limbs }
}

fn decimal(coefficient: u32, scale: i64) -> BigDecimalValue {
    BigDecimalValue { coefficient: big_int(false, vec![coefficient]), scale }
}

fn map(pairs: &[(&str, &str)]) -> StringMapValue {
    let mut m = StringMapValue::new();
    for (k, v) in pairs {
        m.insert(k.to_string(), v.to_string());
    }
    m
}

fn object(members: Vec<(&str, JsonValue)>) -> JsonValue {
    JsonValue::Object(members.into_iter().map(|(k, v)| (k.to_string(), v)).collect())
}

#[test]
fn float_zeros_and_nans_share_identity() {
    let plus = MultiValues::new(vec![Float64Value { bits: 0.0_f64.to_bits() }]);
    let minus = MultiValues::new(vec![Float64Value { bits: (-0.0_f64).to_bits() }]);
    assert_eq!(plus, minus);
    assert_eq!(hash_of(&plus), hash_of(&minus));
    let nan_a = MultiValues::new(vec![Float32Value { bits: f32::NAN.to_bits() }]);
    let nan_b = MultiValues::new(vec![Float32Value { bits: 0x7f80_0001 }]);
    assert_eq!(nan_a, nan_b);
    assert_eq!(hash_of(&nan_a), hash_of(&nan_b));
    let one = MultiValues::new(vec![Float32Value { bits: 1.0_f32.to_bits() }]);
    assert_ne!(one, nan_a);
}

#[test]
fn canonical_bits_of_special_floats() {
    assert_eq!(canonical_f64_bits((-0.0_f64).to_bits()), 0);
    assert_eq!(canonical_f64_bits(f64::NAN.to_bits() | 1), 0x7ff8_0000_0000_0000);
    assert_eq!(canonical_f64_bits(1.5_f64.to_bits()), 1.5_f64.to_bits());
    assert_eq!(canonical_f32_bits((-0.0_f32).to_bits()), 0);
    assert_eq!(canonical_f32_bits(0x7f80_0001), 0x7fc0_0000);
    assert_eq!(canonical_f32_bits(f32::INFINITY.to_bits()), f32::INFINITY.to_bits());
}

#[test]
fn big_integers_compare_by_value() {
    let five = MultiValues::new(vec![big_int(false, vec![5])]);
    let padded = MultiValues::new(vec![big_int(false, vec![5, 0])]);
    assert_eq!(five, padded);
    assert_eq!(hash_of(&five), hash_of(&padded));
    let six = MultiValues::new(vec![big_int(false, vec![6])]);
    assert_ne!(five, six);
    assert_ne!(hash_of(&five), hash_of(&six));
    let negative_zero = Value::BigInteger(big_int(true, vec![]));
    let zero = Value::BigInteger(big_int(false, vec![0]));
    assert_eq!(negative_zero, zero);
    assert_eq!(value_hash(&negative_zero), value_hash(&zero));
    assert_ne!(Value::BigInteger(big_int(true, vec![5])), Value::BigInteger(big_int(false, vec![5])));
}

#[test]
fn big_decimals_compare_by_value() {
    let one_tenths = Value::BigDecimal(decimal(10, 1));
    let one_hundredths = Value::BigDecimal(decimal(100, 2));
    let one = Value::BigDecimal(decimal(1, 0));
    assert_eq!(one_tenths, one_hundredths);
    assert_eq!(one_tenths, one);
    assert_eq!(value_hash(&one_tenths), value_hash(&one_hundredths));
    assert_eq!(value_hash(&one_tenths), value_hash(&one));
    let one_point_one = Value::BigDecimal(decimal(11, 1));
    assert_ne!(one_tenths, one_point_one);
    assert_ne!(value_hash(&one_tenths), value_hash(&one_point_one));
    let hundred = Value::BigDecimal(decimal(1, -2));
    assert_eq!(hundred, Value::BigDecimal(decimal(100, 0)));
    assert_eq!(value_hash(&hundred), value_hash(&Value::BigDecimal(decimal(100, 0))));
    let zero_a = Value::BigDecimal(decimal(0, 3));
    let zero_b = Value::BigDecimal(decimal(0, -7));
    assert_eq!(zero_a, zero_b);
    assert_eq!(value_hash(&zero_a), value_hash(&zero_b));
}

#[test]
fn big_decimal_hash_normalizes_trailing_zeros() {
    let mut a = DefaultHasher::new();
    hash_big_decimal(&decimal(1200, 3), &mut a);
    let mut b = DefaultHasher::new();
    hash_big_decimal(&decimal(12, 1), &mut b);
    assert_eq!(a.finish(), b.finish());
    let mut c = DefaultHasher::new();
    hash_big_decimal(&decimal(12, 2), &mut c);
    assert_ne!(a.finish(), c.finish());
}

#[test]
fn string_maps_ignore_entry_order() {
    let ab = map(&[("a", "1"), ("b", "2")]);
    let ba = map(&[("b", "2"), ("a", "1")]);
    let left = Value::StringMap(ab);
    let right = Value::StringMap(ba);
    assert_eq!(left, right);
    assert_eq!(value_hash(&left), value_hash(&right));
    let other = Value::StringMap(map(&[("a", "1"), ("b", "3")]));
    assert_ne!(left, other);
    assert_ne!(value_hash(&left), value_hash(&other));
}

#[test]
fn string_map_insert_replaces() {
    let mut m = map(&[("a", "1")]);
    assert!(m.insert("a".to_string(), "2".to_string()));
    assert!(!m.insert("b".to_string(), "3".to_string()));
    assert_eq!(m.len(), 2);
    assert_eq!(m.get(&"a".to_string()), Some(&"2".to_string()));
    assert_eq!(m.get(&"c".to_string()), None);
}

#[test]
fn json_objects_ignore_member_order() {
    let a = object(vec![("x", JsonValue::Bool(true)), ("y", JsonValue::Null)]);
    let b = object(vec![("y", JsonValue::Null), ("x", JsonValue::Bool(true))]);
    let left = MultiValues::new(vec![a]);
    let right = MultiValues::new(vec![b]);
    assert_eq!(left, right);
    assert_eq!(hash_of(&left), hash_of(&right));
    let c = object(vec![("y", JsonValue::Null), ("x", JsonValue::Bool(false))]);
    assert_ne!(left, MultiValues::new(vec![c]));
}

#[test]
fn json_arrays_keep_element_order() {
    let a = JsonValue::Array(vec![JsonValue::String("p".to_string()), JsonValue::Number(JsonNumber::PosInt(1))]);
    let b = JsonValue::Array(vec![JsonValue::Number(JsonNumber::PosInt(1)), JsonValue::String("p".to_string())]);
    assert_ne!(Value::Json(a.clone()), Value::Json(b.clone()));
    assert_ne!(value_hash(&Value::Json(a.clone())), value_hash(&Value::Json(b)));
    assert_eq!(value_hash(&Value::Json(a.clone())), value_hash(&Value::Json(a)));
}

#[test]
fn json_numbers_follow_number_equality() {
    let plus = JsonValue::Number(JsonNumber::Float(0.0_f64.to_bits()));
    let minus = JsonValue::Number(JsonNumber::Float((-0.0_f64).to_bits()));
    assert_eq!(Value::Json(plus.clone()), Value::Json(minus.clone()));
    assert_eq!(value_hash(&Value::Json(plus)), value_hash(&Value::Json(minus)));
    let int_one = JsonValue::Number(JsonNumber::PosInt(1));
    let float_one = JsonValue::Number(JsonNumber::Float(1.0_f64.to_bits()));
    assert_ne!(Value::Json(int_one), Value::Json(float_one));
    assert_ne!(
        Value::Json(JsonValue::Number(JsonNumber::NegInt(-1))),
        Value::Json(JsonValue::Number(JsonNumber::PosInt(1)))
    );
}

#[test]
fn json_eq_compares_nested_documents() {
    let left = object(vec![("k", JsonValue::Array(vec![object(vec![("z", JsonValue::Null)])]))]);
    let right = object(vec![("k", JsonValue::Array(vec![object(vec![("z", JsonValue::Null)])]))]);
    assert!(json_eq(&left, &right));
    let shorter = object(vec![]);
    assert!(!json_eq(&left, &shorter));
    let renamed = object(vec![("j", JsonValue::Array(vec![]))]);
    assert!(!json_eq(&left, &renamed));
}

#[test]
fn unset_and_empty_collections_hash_apart() {
    let unset = MultiValues::new_unset(DataType::Int32);
    let empty = MultiValues::new(Vec::<i32>::new());
    assert_ne!(unset, empty);
    assert_ne!(hash_of(&unset), hash_of(&empty));
    let other_unset = MultiValues::new_unset(DataType::Int64);
    assert_ne!(hash_of(&unset), hash_of(&other_unset));
}

#[test]
fn equal_collections_hash_equal() {
    let a = MultiValues::new(vec!["x", "y"]);
    let b = MultiValues::new(vec!["x".to_string(), "y".to_string()]);
    assert_eq!(a, b);
    assert_eq!(hash_of(&a), hash_of(&b));
    let c = MultiValues::new(vec!["y", "x"]);
    assert_ne!(a, c);
}

#[test]
fn named_identity_includes_the_name() {
    let a = NamedValue::new("n", Value::Int8(1));
    let b = NamedValue::new("n".to_string(), Value::Int8(1));
    let c = NamedValue::new("m", Value::Int8(1));
    assert_eq!(a, b);
    assert_ne!(a, c);
    let hash = |v: &NamedValue| {
        let mut state = DefaultHasher::new();
        v.hash_identity(&mut state);
        state.finish()
    };
    assert_eq!(hash(&a), hash(&b));
    assert_ne!(hash(&a), hash(&c));
    let x = NamedMultiValues::new("n", MultiValues::new(vec![1_u64]));
    let y = NamedMultiValues::new("n", MultiValues::new(vec![1_u64]));
    let hash_multi = |v: &NamedMultiValues| {
        let mut state = DefaultHasher::new();
        v.hash_identity(&mut state);
        state.finish()
    };
    assert_eq!(x, y);
    assert_eq!(hash_multi(&x), hash_multi(&y));
}

#[test]
fn data_type_numeric_family() {
    assert!(DataType::Int8.is_numeric());
    assert!(DataType::UInt128.is_numeric());
    assert!(DataType::Float64.is_numeric());
    assert!(DataType::BigInteger.is_numeric());
    assert!(DataType::BigDecimal.is_numeric());
    assert!(!DataType::Bool.is_numeric());
    assert!(!DataType::Char.is_numeric());
    assert!(!DataType::String.is_numeric());
    assert!(!DataType::Duration.is_numeric());
    assert!(!DataType::Json.is_numeric());
    assert_eq!(DataType::Json.ordinal(), 24);
}

#[test]
fn elements_borrows_concrete_items() {
    let values = MultiValues::new(vec![1_i32, 2]);
    assert_eq!(values.elements().unwrap(), &vec![Value::Int32(1), Value::Int32(2)]);
    assert!(MultiValues::new_unset(DataType::Int32).elements().is_none());
}

#[test]
fn data_type_ordinals_round_trip() {
    for ordinal in 0..25 {
        let data_type = DataType::from_ordinal(ordinal).unwrap();
        assert_eq!(data_type.ordinal(), ordinal);
    }
    assert_eq!(DataType::from_ordinal(25), None);
    assert_eq!(DataType::from_ordinal(14), Some(DataType::String));
}

#[test]
fn float_finiteness() {
    assert!(Float64Value { bits: 1.5_f64.to_bits() }.is_finite());
    assert!(!Float64Value { bits: f64::NAN.to_bits() }.is_finite());
    assert!(!Float64Value { bits: f64::NEG_INFINITY.to_bits() }.is_finite());
    assert!(Float32Value { bits: (-0.0_f32).to_bits() }.is_finite());
    assert!(!Float32Value { bits: f32::INFINITY.to_bits() }.is_finite());
}

#[test]
fn collection_hash_writes_std_hash_layout() {
    let values = MultiValues::new(vec![1_i32, -2]);
    let mut expected = DefaultHasher::new();
    5_isize.hash(&mut expected);
    vec![1_i32, -2].hash(&mut expected);
    assert_eq!(hash_of(&values), expected.finish());
    let bytes = MultiValues::new(vec![7_u8, 8, 9]);
    let mut expected = DefaultHasher::new();
    8_isize.hash(&mut expected);
    vec![7_u8, 8, 9].hash(&mut expected);
    assert_eq!(hash_of(&bytes), expected.finish());
    let texts = MultiValues::new(vec!["a", "bc"]);
    let mut expected = DefaultHasher::new();
    15_isize.hash(&mut expected);
    vec!["a".to_string(), "bc".to_string()].hash(&mut expected);
    assert_eq!(hash_of(&texts), expected.finish());
}

#[test]
fn date_hash_writes_chrono_hash() {
    let date = chrono::NaiveDate::from_ymd_opt(2024, 1, 2).unwrap();
    let values = MultiValues::new(vec![qubit_value::DateValue { days_from_ce: date.num_days_from_ce() }]);
    let mut expected = DefaultHasher::new();
    16_isize.hash(&mut expected);
    vec![date].hash(&mut expected);
    assert_eq!(hash_of(&values), expected.finish());
}

use qubit_value::{
    BigDecimalValue,
    BigIntegerValue,
    DataType,
    Float64Value,
    JsonNumber,
    JsonValue,
    MultiValues,
    NamedMultiValues,
    NamedValue,
    StringMapValue,
    Value,
    ValueError,
    ValueMissing,
};

fn decimal(coefficient: u32, scale: i64) -> Value {
    Value::BigDecimal(BigDecimalValue {
        coefficient: BigIntegerValue { negative: false, magnitude: vec![coefficient] },
        scale,
    })
}

fn sample_values() -> Vec<Value> {
    let mut map = StringMapValue::new();
    map.insert("k".to_string(), "v".to_string());
    vec![
        Value::Unset(DataType::Int32),
        Value::Bool(true),
        Value::Char('z'),
        Value::Int128(-5),
        Value::UInt64(7),
        Value::Float64(Float64Value { bits: f64::NAN.to_bits() }),
        Value::Float64(Float64Value { bits: (-0.0_f64).to_bits() }),
        Value::String("text".to_string()),
        decimal(150, 2),
        Value::StringMap(map),
        Value::Json(JsonValue::Object(vec![
            ("a".to_string(), JsonValue::Number(JsonNumber::Float(2.5_f64.to_bits()))),
            ("b".to_string(), JsonValue::Array(vec![JsonValue::Null])),
        ])),
    ]
}

#[test]
fn identity_is_reflexive() {
    for value in sample_values() {
        assert_eq!(value, value.clone());
    }
    let collection = MultiValues::new(vec![Float64Value { bits: f64::NAN.to_bits() }]);
    assert_eq!(collection, collection.clone());
}

#[test]
fn identity_is_symmetric_and_transitive() {
    let a = decimal(1, 0);
    let b = decimal(10, 1);
    let c = decimal(100, 2);
    assert_eq!(a, b);
    assert_eq!(b, a);
    assert_eq!(b, c);
    assert_eq!(a, c);
    assert_eq!(c, a);
    let mut left = StringMapValue::new();
    left.insert("x".to_string(), "1".to_string());
    left.insert("y".to_string(), "2".to_string());
    let mut right = StringMapValue::new();
    right.insert("y".to_string(), "2".to_string());
    right.insert("x".to_string(), "1".to_string());
    assert_eq!(Value::StringMap(left.clone()), Value::StringMap(right.clone()));
    assert_eq!(Value::StringMap(right), Value::StringMap(left));
}

#[test]
fn distinct_values_are_not_identical() {
    let values = sample_values();
    for (i, left) in values.iter().enumerate() {
        for (j, right) in values.iter().enumerate() {
            assert_eq!(i == j, left == right, "{:?} vs {:?}", left, right);
        }
    }
}

#[test]
fn get_after_set_returns_the_values_set() {
    let mut values = MultiValues::new_unset(DataType::Int8);
    values.set(vec![3_i8, 1, 2]);
    assert_eq!(values.get::<i8>().unwrap(), vec![3, 1, 2]);
}

#[test]
fn get_after_add_returns_old_then_new() {
    let mut values = MultiValues::new(vec![1_u32]);
    values.add(vec![2_u32, 3]).unwrap();
    values.add(Vec::<u32>::new()).unwrap();
    assert_eq!(values.get::<u32>().unwrap(), vec![1, 2, 3]);
}

#[test]
fn read_after_clear_is_empty_not_default() {
    let mut values = MultiValues::new(vec![1_u32]);
    values.clear();
    assert_eq!(values.get::<u32>().unwrap(), Vec::<u32>::new());
    assert_eq!(values.get_or::<u32>(vec![9_u32]).unwrap(), Vec::<u32>::new());
}

#[test]
fn read_after_unset_uses_default() {
    let mut values = MultiValues::new(vec![1_u32]);
    values.unset();
    assert_eq!(
        values.get::<u32>().unwrap_err(),
        ValueError::Missing(ValueMissing::UnsetCollection { data_type: DataType::UInt32 })
    );
    assert_eq!(values.get_or::<u32>(vec![9_u32]).unwrap(), vec![9]);
    assert_eq!(values.get_first_or::<u32>(4_u32).unwrap(), 4);
}

#[test]
fn first_value_of_a_scalar_collection_is_the_scalar() {
    for value in sample_values() {
        let collection = MultiValues::from_value(value.clone());
        assert_eq!(collection.first_value(), value);
        assert_eq!(collection.into_first_value(), value);
    }
    let named = NamedValue::new("n", Value::Int16(3));
    let collection = NamedMultiValues::from_named_value(named.clone());
    assert_eq!(collection.first_named_value(), named);
}

#[test]
fn merge_of_nothing_keeps_an_unset_collection_unset() {
    let mut values = MultiValues::new_unset(DataType::Int32);
    values.merge(&MultiValues::new(Vec::<i32>::new())).unwrap();
    assert!(values.is_unset());
    values.merge(&MultiValues::new_unset(DataType::Int32)).unwrap();
    assert!(values.is_unset());
}

#[test]
fn missing_error_reports_unset_only_for_unset() {
    assert!(ValueMissing::UnsetCollection { data_type: DataType::Url }.is_unset());
    assert!(!ValueMissing::EmptyCollection { data_type: DataType::Url }.is_unset());
    assert_eq!(ValueMissing::EmptyCollection { data_type: DataType::Url }.data_type(), DataType::Url);
}

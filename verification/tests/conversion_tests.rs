use qubit_value::{
    BigDecimalValue,
    BigIntegerValue,
    BudgetResource,
    ConversionKind,
    DataType,
    DateValue,
    Float64Value,
    JsonValue,
    MultiValues,
    ProjectionLimits,
    StringMapValue,
    Value,
    ValueError,
    ValueMissing,
};

use chrono::Datelike;

#[test]
fn to_first_converts_by_the_shared_rules() {
    let flags = MultiValues::new(vec!["1", "0"]);
    assert_eq!(flags.to_first::<bool>(), Ok(true));
    let wide = MultiValues::new(vec![42_i64, 7]);
    assert_eq!(wide.to_first::<i32>(), Ok(42));
    assert_eq!(wide.to_first::<String>(), Ok("42".to_string()));
    let numbers = MultiValues::new(vec![300_i32]);
    let expected = qubit_datatype::DataConverter::from(300_i32).to::<u8>().unwrap_err().kind();
    match numbers.to_first::<u8>() {
        Err(ValueError::Conversion { from, to, kind, source_index }) => {
            assert_eq!(from, DataType::Int32);
            assert_eq!(to, DataType::UInt8);
            assert_eq!(source_index, None);
            assert_eq!(format!("{kind:?}"), format!("{expected:?}"));
        }
        other => panic!("unexpected {other:?}"),
    }
}

#[test]
fn to_first_reports_unset_and_empty_collections() {
    let unset = MultiValues::new_unset(DataType::Int32);
    assert_eq!(
        unset.to_first::<i32>(),
        Err(ValueError::Missing(ValueMissing::UnsetCollection { data_type: DataType::Int32 })),
    );
    let mut empty = MultiValues::new(vec![1_i32]);
    empty.clear();
    assert_eq!(
        empty.to_first::<i32>(),
        Err(ValueError::Missing(ValueMissing::EmptyCollection { data_type: DataType::Int32 })),
    );
}

#[test]
fn to_first_or_falls_back_only_for_unset_collections() {
    let unset = MultiValues::new_unset(DataType::String);
    assert_eq!(unset.to_first_or::<i64>(9_i64), Ok(9));
    assert_eq!(unset.to_first_or_else::<i64, _>(|| 11), Ok(11));
    let mut empty = MultiValues::new(vec!["5"]);
    assert_eq!(empty.to_first_or::<i64>(9_i64), Ok(5));
    empty.clear();
    assert_eq!(
        empty.to_first_or::<i64>(9_i64),
        Err(ValueError::Missing(ValueMissing::EmptyCollection { data_type: DataType::String })),
    );
    assert!(empty.to_first_or_else::<i64, _>(|| 11).is_err());
}

#[test]
fn to_list_converts_every_element_in_order() {
    let values = MultiValues::new(vec![1_u16, 2, 3]);
    assert_eq!(values.to_list::<String>(), Ok(vec!["1".to_string(), "2".to_string(), "3".to_string()]));
    assert_eq!(values.to_list::<u64>(), Ok(vec![1, 2, 3]));
    let mixed = MultiValues::new(vec!["1", "x", "3"]);
    match mixed.to_list::<i32>() {
        Err(ValueError::Conversion { from, to, source_index, .. }) => {
            assert_eq!(from, DataType::String);
            assert_eq!(to, DataType::Int32);
            assert_eq!(source_index, Some(1));
        }
        other => panic!("unexpected {other:?}"),
    }
    let mut empty = MultiValues::new(vec![1_u16]);
    empty.clear();
    assert_eq!(empty.to_list::<u16>(), Ok(vec![]));
}

#[test]
fn to_list_or_uses_the_default_for_unset_collections() {
    let unset = MultiValues::new_unset(DataType::Bool);
    assert_eq!(unset.to_list_or::<bool>(vec![true]), Ok(vec![true]));
    assert_eq!(unset.to_list_or_else::<bool, _>(|| vec![false]), Ok(vec![false]));
    assert_eq!(
        unset.to_list::<bool>(),
        Err(ValueError::Missing(ValueMissing::UnsetCollection { data_type: DataType::Bool })),
    );
    let set = MultiValues::new(vec![true]);
    assert_eq!(set.to_list_or::<String>(Vec::<String>::new()), Ok(vec!["true".to_string()]));
}

#[test]
fn rich_sources_convert_through_their_outside_types() {
    let date = chrono::NaiveDate::from_ymd_opt(2024, 1, 2).unwrap();
    let dates = MultiValues::new(vec![DateValue { days_from_ce: date.num_days_from_ce() }]);
    let expected = qubit_datatype::DataConverter::from(date).to::<String>().unwrap();
    assert_eq!(dates.to_first::<String>(), Ok(expected));
    let big = MultiValues::new(vec![BigIntegerValue { negative: false, magnitude: vec![77] }]);
    assert_eq!(big.to_first::<i32>(), Ok(77));
    let decimal = MultiValues::new(vec![BigDecimalValue {
        coefficient: BigIntegerValue { negative: false, magnitude: vec![125] },
        scale: 1,
    }]);
    assert_eq!(decimal.to_first::<String>(), Ok("12.5".to_string()));
    let mut map = StringMapValue::new();
    map.insert("a".to_string(), "1".to_string());
    assert!(MultiValues::new(vec![map]).to_first::<String>().is_ok());
    let bad_date = MultiValues::new(vec![DateValue { days_from_ce: i32::MAX }]);
    match bad_date.to_first::<String>() {
        Err(ValueError::Conversion { kind, .. }) => assert_eq!(kind, ConversionKind::InvalidValue),
        other => panic!("unexpected {other:?}"),
    }
}

#[test]
fn floats_and_json_have_no_conversion_source() {
    let floats = MultiValues::new(vec![Float64Value { bits: 1.0_f64.to_bits() }]);
    match floats.to_first::<i32>() {
        Err(ValueError::Conversion { kind, .. }) => assert_eq!(kind, ConversionKind::Unsupported),
        other => panic!("unexpected {other:?}"),
    }
    let docs = MultiValues::new(vec![JsonValue::Null]);
    assert!(docs.to_first::<String>().is_err());
}

#[test]
fn big_number_projection_limits() {
    let roomy = ProjectionLimits::default_limits();
    assert_eq!(roomy.max_big_integer_digits, 16_384);
    assert_eq!(roomy.max_big_decimal_scale, 150_000);
    let limits = ProjectionLimits { max_big_integer_digits: 3, ..roomy };
    let big = Value::BigInteger(BigIntegerValue { negative: true, magnitude: vec![12345] });
    assert_eq!(
        big.to_json_value_with(&limits).unwrap_err(),
        ValueError::JsonProjectionLimit { data_type: DataType::BigInteger, source_index: None, resource: BudgetResource::BigIntegerDigits },
    );
    let small = Value::BigInteger(BigIntegerValue { negative: false, magnitude: vec![123] });
    assert!(small.to_json_value_with(&limits).is_ok());
    let zero = Value::BigInteger(BigIntegerValue { negative: false, magnitude: vec![] });
    assert!(zero.to_json_value_with(&ProjectionLimits { max_big_integer_digits: 0, ..roomy }).is_ok());
    let decimal = Value::BigDecimal(BigDecimalValue {
        coefficient: BigIntegerValue { negative: false, magnitude: vec![1] },
        scale: -200_000,
    });
    assert_eq!(
        decimal.to_json_value_with(&roomy).unwrap_err(),
        ValueError::JsonProjectionLimit { data_type: DataType::BigDecimal, source_index: None, resource: BudgetResource::BigDecimalScale },
    );
    let long = Value::BigDecimal(BigDecimalValue {
        coefficient: BigIntegerValue { negative: false, magnitude: vec![123456] },
        scale: 2,
    });
    assert_eq!(
        long.to_json_value_with(&ProjectionLimits { max_big_decimal_digits: 5, ..roomy }).unwrap_err(),
        ValueError::JsonProjectionLimit { data_type: DataType::BigDecimal, source_index: None, resource: BudgetResource::BigDecimalDigits },
    );
}

#[test]
fn first_conversion_agrees_with_list_conversion() {
    let values = MultiValues::new(vec!["10", "20"]);
    let list = values.to_list::<u32>().unwrap();
    assert_eq!(values.to_first::<u32>(), Ok(list[0]));
    assert_eq!(list, vec![10, 20]);
}

use qubit_value::element::ValueElement;
use qubit_value::value::Value;
use qubit_value::{
    DataType,
    MultiValues,
    MultiValuesAdder,
    MultiValuesFirstGetter,
    MultiValuesMultiAdder,
    MultiValuesSetter,
    MultiValuesSetterSlice,
    MultiValuesSingleSetter,
    NamedMultiValues,
    NamedValue,
    ValueError,
    ValueMissing,
};

#[test]
fn new_from_vector_keeps_order() {
    let values = MultiValues::new(vec![1_i32, 2, 3]);
    assert_eq!(values.len(), 3);
    assert_eq!(values.data_type(), DataType::Int32);
    assert_eq!(values.get::<i32>().unwrap(), vec![1, 2, 3]);
}

#[test]
fn new_from_strings_and_texts() {
    let owned = MultiValues::new(vec!["a".to_string(), "b".to_string()]);
    assert_eq!(owned.len(), 2);
    let borrowed = MultiValues::new(vec!["a", "b"]);
    assert_eq!(owned, borrowed);
    let single = MultiValues::new("hello");
    assert_eq!(single.get::<String>().unwrap(), vec!["hello".to_string()]);
}

#[test]
fn add_single_vector_and_slice() {
    let mut mv = MultiValues::new(vec![42_i32]);
    mv.add(100_i32).unwrap();
    assert_eq!(mv.get::<i32>().unwrap(), vec![42, 100]);
    mv.add(vec![200_i32, 300]).unwrap();
    assert_eq!(mv.get::<i32>().unwrap(), vec![42, 100, 200, 300]);
    let slice = &[400_i32, 500][..];
    mv.add(slice).unwrap();
    assert_eq!(mv.get::<i32>().unwrap(), vec![42, 100, 200, 300, 400, 500]);
}

#[test]
fn add_type_mismatch_leaves_collection_unchanged() {
    let mut mv = MultiValues::new(vec![1_i32, 2]);
    let err = mv.add("text").unwrap_err();
    assert_eq!(err, ValueError::TypeMismatch { expected: DataType::Int32, actual: DataType::String });
    assert_eq!(mv.get::<i32>().unwrap(), vec![1, 2]);
}

#[test]
fn add_empty_input_is_a_no_op() {
    let mut unset = MultiValues::new_unset(DataType::Int32);
    unset.add(Vec::<i32>::new()).unwrap();
    assert!(unset.is_unset());
    let mut concrete = MultiValues::new(vec![7_i32]);
    concrete.add(Vec::<i32>::new()).unwrap();
    assert_eq!(concrete.get::<i32>().unwrap(), vec![7]);
}

#[test]
fn add_to_unset_takes_the_elements() {
    let mut mv = MultiValues::new_unset(DataType::Int64);
    mv.add(vec![5_i64, 6]).unwrap();
    assert!(!mv.is_unset());
    assert_eq!(mv.get::<i64>().unwrap(), vec![5, 6]);
}

#[test]
fn set_replaces_values_and_type() {
    let mut mv = MultiValues::new_unset(DataType::Int32);
    mv.set(vec![42_i32, 100, 200]);
    assert_eq!(mv.get::<i32>().unwrap(), vec![42, 100, 200]);
    let mut mv = MultiValues::new_unset(DataType::Int32);
    let slice = &[7_i32, 8, 9][..];
    mv.set(slice);
    assert_eq!(mv.get::<i32>().unwrap(), vec![7, 8, 9]);
    let mut mv = MultiValues::new_unset(DataType::Int32);
    mv.set(42_i32);
    assert_eq!(mv.get::<i32>().unwrap(), vec![42]);
    mv.set(vec!["hello".to_string(), "world".to_string()]);
    assert_eq!(mv.data_type(), DataType::String);
    assert_eq!(mv.get::<String>().unwrap(), vec!["hello".to_string(), "world".to_string()]);
}

#[test]
fn len_of_unset_is_zero() {
    let values = MultiValues::new(vec![1_i32, 2, 3]);
    assert_eq!(values.len(), 3);
    let empty = MultiValues::new_unset(DataType::String);
    assert_eq!(empty.len(), 0);
    assert!(empty.is_empty());
}

#[test]
fn unset_and_concrete_empty_differ() {
    let values = MultiValues::new(Vec::<i32>::new());
    assert!(!values.is_unset());
    assert!(values.is_empty());
    let empty = MultiValues::new_unset(DataType::String);
    assert!(empty.is_unset());
}

#[test]
fn is_numeric_needs_a_concrete_collection() {
    assert!(MultiValues::new(Vec::<i32>::new()).is_numeric());
    assert!(!MultiValues::new_unset(DataType::Int32).is_numeric());
    assert!(!MultiValues::new(vec!["x"]).is_numeric());
    assert!(MultiValues::new(vec![1_u128]).is_numeric());
}

#[test]
fn clear_keeps_type_and_concreteness() {
    let mut values = MultiValues::new(vec![1_i32, 2, 3]);
    values.clear();
    assert_eq!(values.len(), 0);
    assert_eq!(values.data_type(), DataType::Int32);
    assert!(!values.is_unset());
    let mut unset = MultiValues::new_unset(DataType::Bool);
    unset.clear();
    assert!(unset.is_unset());
}

#[test]
fn unset_keeps_the_declared_type() {
    let mut values = MultiValues::new(vec![true, false]);
    values.unset();
    assert!(values.is_unset());
    assert_eq!(values.data_type(), DataType::Bool);
}

#[test]
fn set_type_clears_only_on_change() {
    let mut values = MultiValues::new(vec![1_i32, 2, 3]);
    values.set_type(DataType::Int32);
    assert_eq!(values.len(), 3);
    values.set_type(DataType::String);
    assert!(values.is_unset());
    assert_eq!(values.data_type(), DataType::String);
}

#[test]
fn get_reports_missing_and_mismatch() {
    let unset = MultiValues::new_unset(DataType::Int32);
    assert_eq!(
        unset.get::<i32>().unwrap_err(),
        ValueError::Missing(ValueMissing::UnsetCollection { data_type: DataType::Int32 })
    );
    assert_eq!(
        unset.get::<String>().unwrap_err(),
        ValueError::TypeMismatch { expected: DataType::String, actual: DataType::Int32 }
    );
    let empty = MultiValues::new(Vec::<i32>::new());
    assert_eq!(empty.get::<i32>().unwrap(), Vec::<i32>::new());
}

#[test]
fn get_first_reads_first_or_reports() {
    let multi = MultiValues::new(vec![42_i32, 100, 200]);
    assert_eq!(multi.get_first::<i32>().unwrap(), 42);
    let multi = MultiValues::new(vec!["hello".to_string(), "world".to_string()]);
    assert_eq!(multi.get_first::<String>().unwrap(), "hello");
    let empty = MultiValues::new(Vec::<i32>::new());
    assert_eq!(
        empty.get_first::<i32>().unwrap_err(),
        ValueError::Missing(ValueMissing::EmptyCollection { data_type: DataType::Int32 })
    );
    let unset = MultiValues::new_unset(DataType::Int32);
    assert_eq!(
        unset.get_first::<i32>().unwrap_err(),
        ValueError::Missing(ValueMissing::UnsetCollection { data_type: DataType::Int32 })
    );
    assert_eq!(
        multi.get_first::<i32>().unwrap_err(),
        ValueError::TypeMismatch { expected: DataType::Int32, actual: DataType::String }
    );
}

#[test]
fn get_or_uses_default_only_when_unset() {
    let unset = MultiValues::new_unset(DataType::Int32);
    assert_eq!(unset.get_or::<i32>(vec![9_i32]).unwrap(), vec![9]);
    let defaults = vec![4_i32, 5];
    assert_eq!(unset.get_or::<i32>(&defaults).unwrap(), vec![4, 5]);
    assert_eq!(unset.get_or::<i32>(&defaults[..1]).unwrap(), vec![4]);
    let empty = MultiValues::new(Vec::<i32>::new());
    assert_eq!(empty.get_or::<i32>(vec![9_i32]).unwrap(), Vec::<i32>::new());
    let strings = MultiValues::new_unset(DataType::String);
    assert_eq!(strings.get_or::<String>(vec!["a", "b"]).unwrap(), vec!["a".to_string(), "b".to_string()]);
    let mismatch = MultiValues::new(vec![1_u8]);
    assert_eq!(
        mismatch.get_or::<i32>(vec![9_i32]).unwrap_err(),
        ValueError::TypeMismatch { expected: DataType::Int32, actual: DataType::UInt8 }
    );
}

#[test]
fn get_or_else_calls_back_only_when_unset() {
    let unset = MultiValues::new_unset(DataType::Int32);
    assert_eq!(unset.get_or_else(|| vec![1_i32, 2]).unwrap(), vec![1, 2]);
    let concrete = MultiValues::new(vec![3_i32]);
    assert_eq!(concrete.get_or_else(|| vec![1_i32, 2]).unwrap(), vec![3]);
}

#[test]
fn get_first_or_and_or_else() {
    let unset = MultiValues::new_unset(DataType::String);
    assert_eq!(unset.get_first_or::<String>("fallback").unwrap(), "fallback");
    let empty = MultiValues::new(Vec::<String>::new());
    assert_eq!(
        empty.get_first_or::<String>("fallback").unwrap_err(),
        ValueError::Missing(ValueMissing::EmptyCollection { data_type: DataType::String })
    );
    let unset_int = MultiValues::new_unset(DataType::Int32);
    assert_eq!(unset_int.get_first_or::<i32>(7_i32).unwrap(), 7);
    assert_eq!(unset_int.get_first_or_else(|| 8_i32).unwrap(), 8);
    let concrete = MultiValues::new(vec![3_i32]);
    assert_eq!(concrete.get_first_or_else(|| 8_i32).unwrap(), 3);
}

#[test]
fn first_value_and_into_first_value() {
    let values = MultiValues::new(vec![5_i16, 6]);
    assert_eq!(values.first_value(), Value::Int16(5));
    assert_eq!(values.into_first_value(), Value::Int16(5));
    let empty = MultiValues::new(Vec::<i16>::new());
    assert_eq!(empty.first_value(), Value::Unset(DataType::Int16));
    let unset = MultiValues::new_unset(DataType::Char);
    assert_eq!(unset.into_first_value(), Value::Unset(DataType::Char));
}

#[test]
fn merge_appends_copies() {
    let mut left = MultiValues::new(vec![1_i32]);
    let right = MultiValues::new(vec![2_i32, 3]);
    left.merge(&right).unwrap();
    assert_eq!(left.get::<i32>().unwrap(), vec![1, 2, 3]);
    assert_eq!(right.get::<i32>().unwrap(), vec![2, 3]);
    let other = MultiValues::new(vec![true]);
    assert_eq!(
        left.merge(&other).unwrap_err(),
        ValueError::TypeMismatch { expected: DataType::Int32, actual: DataType::Bool }
    );
    let mut unset = MultiValues::new_unset(DataType::Int32);
    unset.merge(&right).unwrap();
    assert_eq!(unset.get::<i32>().unwrap(), vec![2, 3]);
}

#[test]
fn from_value_gives_one_element_or_unset() {
    let one = MultiValues::from_value(Value::Int32(4));
    assert_eq!(one.get::<i32>().unwrap(), vec![4]);
    let unset = MultiValues::from_value(Value::Unset(DataType::Json));
    assert!(unset.is_unset());
    assert_eq!(unset.data_type(), DataType::Json);
}

#[test]
fn identity_compares_type_state_and_elements() {
    assert_eq!(MultiValues::new(vec![1_i32, 2]), MultiValues::new(vec![1_i32, 2]));
    assert_ne!(MultiValues::new(vec![1_i32, 2]), MultiValues::new(vec![2_i32, 1]));
    assert_ne!(MultiValues::new_unset(DataType::Int32), MultiValues::new(Vec::<i32>::new()));
    assert_ne!(MultiValues::new(Vec::<i64>::new()), MultiValues::new(Vec::<i32>::new()));
    assert_eq!(MultiValues::new_unset(DataType::Int32), MultiValues::new_unset(DataType::Int32));
}

#[test]
fn typed_adder_setter_traits() {
    let mut mv = MultiValues::new_unset(DataType::UInt16);
    MultiValuesSetter::<u16>::set_values(&mut mv, vec![1, 2]).unwrap();
    MultiValuesAdder::<u16>::add_value(&mut mv, 3).unwrap();
    MultiValuesMultiAdder::<u16>::add_values(&mut mv, vec![4, 5]).unwrap();
    assert_eq!(mv.get::<u16>().unwrap(), vec![1, 2, 3, 4, 5]);
    assert_eq!(MultiValuesFirstGetter::<u16>::get_first_value(&mv).unwrap(), 1);
    MultiValuesSetterSlice::<u16>::set_values_slice(&mut mv, &[9, 8]).unwrap();
    assert_eq!(mv.get::<u16>().unwrap(), vec![9, 8]);
    MultiValuesSingleSetter::<u16>::set_single_value(&mut mv, 6).unwrap();
    assert_eq!(mv.get::<u16>().unwrap(), vec![6]);
    assert!(MultiValuesAdder::<bool>::add_value(&mut mv, true).is_err());
}

#[test]
fn element_types_report_their_data_type() {
    assert_eq!(<i8 as ValueElement>::element_type(), DataType::Int8);
    assert_eq!(<String as ValueElement>::element_type(), DataType::String);
}

#[test]
fn named_value_accessors() {
    let mut config = NamedValue::new("port", Value::Int32(8080));
    assert_eq!(config.name(), "port");
    assert_eq!(config.value(), &Value::Int32(8080));
    config.set_name(String::from("p"));
    *config.value_mut() = Value::Int32(1);
    assert_eq!(config.name(), "p");
    config.set_value(Value::Bool(true));
    let (name, value) = config.into_parts();
    assert_eq!(name, "p");
    assert_eq!(value, Value::Bool(true));
}

#[test]
fn named_multi_values_first_named_value() {
    let named = NamedMultiValues::new("ids", MultiValues::new(vec![3_u32, 4]));
    assert_eq!(named.first_named_value(), NamedValue::new("ids", Value::UInt32(3)));
    let empty = NamedMultiValues::new("ids", MultiValues::new_unset(DataType::UInt32));
    assert_eq!(empty.into_first_named_value(), NamedValue::new("ids", Value::Unset(DataType::UInt32)));
    let from_scalar = NamedMultiValues::from_named_value(NamedValue::new("x", Value::Char('c')));
    assert_eq!(from_scalar.values().get::<char>().unwrap(), vec!['c']);
    let mut named = NamedMultiValues::new("a", MultiValues::new(vec![1_i8]));
    named.values_mut().add(2_i8).unwrap();
    named.set_name("b");
    assert_eq!(named.name(), "b");
    named.set_values(MultiValues::new(vec![5_i8]));
    let (name, values) = named.into_parts();
    assert_eq!(name, "b");
    assert_eq!(values.get::<i8>().unwrap(), vec![5]);
}

#[test]
fn arrays_and_borrowed_inputs() {
    assert_eq!(MultiValues::new([1_u8, 2, 3]).get::<u8>().unwrap(), vec![1, 2, 3]);
    assert_eq!(MultiValues::new(&[4_u8, 5]).get::<u8>().unwrap(), vec![4, 5]);
    let owned = vec![6_u8];
    assert_eq!(MultiValues::new(&owned).get::<u8>().unwrap(), vec![6]);
    assert_eq!(
        MultiValues::new(["a", "b"]).get::<String>().unwrap(),
        vec!["a".to_string(), "b".to_string()]
    );
    assert_eq!(MultiValues::new(&["c"]).get::<String>().unwrap(), vec!["c".to_string()]);
    let texts = vec!["d", "e"];
    assert_eq!(MultiValues::new(&texts).len(), 2);
    assert_eq!(MultiValues::new(&texts[..]).len(), 2);
}

#[test]
fn array_and_text_defaults() {
    let unset = MultiValues::new_unset(DataType::UInt8);
    assert_eq!(unset.get_or::<u8>([1_u8, 2]).unwrap(), vec![1, 2]);
    assert_eq!(unset.get_or::<u8>(&[3_u8]).unwrap(), vec![3]);
    let strings = MultiValues::new_unset(DataType::String);
    assert_eq!(strings.get_or::<String>(["x"]).unwrap(), vec!["x".to_string()]);
    assert_eq!(strings.get_or::<String>(&["y"]).unwrap(), vec!["y".to_string()]);
    let borrowed = vec!["z"];
    assert_eq!(strings.get_or::<String>(&borrowed).unwrap(), vec!["z".to_string()]);
    assert_eq!(strings.get_or::<String>(&borrowed[..]).unwrap(), vec!["z".to_string()]);
    let owned = "w".to_string();
    assert_eq!(strings.get_first_or::<String>(&owned).unwrap(), "w");
}

#[test]
fn multiple_values_operations_example() {
    let mut values = MultiValues::new(vec![1_i32, 2, 3]);
    assert_eq!(values.len(), 3);
    values.add(4_i32).unwrap();
    assert_eq!(values.get::<i32>().unwrap(), vec![1, 2, 3, 4]);
    assert_eq!(values.get_first::<i32>().unwrap(), 1);
}

#[test]
fn data_type_of_collections() {
    let values = MultiValues::new(vec![1_i32, 2, 3]);
    assert_eq!(values.data_type(), DataType::Int32);
    let dates = MultiValues::new(vec![qubit_value::DateValue { days_from_ce: 1 }]);
    assert_eq!(dates.data_type(), DataType::Date);
}

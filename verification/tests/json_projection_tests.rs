use std::collections::hash_map::DefaultHasher;
use std::hash::Hasher;

use chrono::Datelike;
use qubit_value::json_value::json_eq;
use qubit_value::natural_json::{admit_json, prepare_collection, project_scalar, widen_f32_bits};
use qubit_value::{
    BigDecimalValue,
    BigIntegerValue,
    DateTimeValue,
    DurationValue,
    InstantValue,
    TimeValue,
    UrlValue,
    BudgetResource,
    DataType,
    DateValue,
    Float32Value,
    Float64Value,
    JsonNumber,
    JsonValue,
    MultiValues,
    ProjectionBudget,
    ProjectionFault,
    ProjectionLimits,
    StringMapValue,
    StructureBudget,
    Value,
    ValueError,
};

fn roomy() -> ProjectionLimits {
    ProjectionLimits::default_limits()
}

fn string(text: &str) -> JsonValue {
    JsonValue::String(text.to_string())
}

fn assert_json(actual: &JsonValue, expected: &JsonValue) {
    assert!(json_eq(actual, expected), "{:?} != {:?}", actual, expected);
}

#[test]
fn collection_of_ports_projects_to_an_array_of_numbers() {
    let values = MultiValues::new([8080_i32, 8081]);
    let json = values.to_json_value().unwrap();
    assert_json(
        &json,
        &JsonValue::Array(vec![
            JsonValue::Number(JsonNumber::PosInt(8080)),
            JsonValue::Number(JsonNumber::PosInt(8081)),
        ]),
    );
}

#[test]
fn unset_collection_projects_to_null_and_empty_to_empty_array() {
    let unset = MultiValues::new_unset(DataType::String);
    assert_json(&unset.to_json_value().unwrap(), &JsonValue::Null);
    let mut empty = MultiValues::new(vec![1_i64]);
    empty.clear();
    assert_json(&empty.to_json_value().unwrap(), &JsonValue::Array(vec![]));
    let single = MultiValues::new(vec![-5_i64]);
    assert_json(
        &single.to_json_value().unwrap(),
        &JsonValue::Array(vec![JsonValue::Number(JsonNumber::NegInt(-5))]),
    );
}

#[test]
fn scalars_project_to_numbers_strings_and_null() {
    assert_json(&Value::Int32(42).to_json_value().unwrap(), &JsonValue::Number(JsonNumber::PosInt(42)));
    assert_json(&Value::String("localhost".to_string()).to_json_value().unwrap(), &string("localhost"));
    assert_json(&Value::Unset(DataType::String).to_json_value().unwrap(), &JsonValue::Null);
    assert_json(&Value::Bool(true).to_json_value().unwrap(), &JsonValue::Bool(true));
    assert_json(&Value::Char('é').to_json_value().unwrap(), &string("é"));
}

#[test]
fn string_map_projects_to_an_object_of_strings() {
    let mut map = StringMapValue::new();
    map.insert("z".to_string(), "26".to_string());
    map.insert("a".to_string(), "1".to_string());
    let json = Value::StringMap(map).to_json_value().unwrap();
    let expected = JsonValue::Object(vec![("a".to_string(), string("1")), ("z".to_string(), string("26"))]);
    assert_json(&json, &expected);
}

#[test]
fn wide_integers_project_when_a_json_number_holds_them() {
    assert_json(
        &Value::Int128(-7).to_json_value().unwrap(),
        &JsonValue::Number(JsonNumber::NegInt(-7)),
    );
    assert_json(
        &Value::UInt128(u64::MAX as u128).to_json_value().unwrap(),
        &JsonValue::Number(JsonNumber::PosInt(u64::MAX)),
    );
    assert_eq!(
        Value::UInt128(u64::MAX as u128 + 1).to_json_value().unwrap_err(),
        ValueError::JsonProjectionInvalid { data_type: DataType::UInt128, source_index: None },
    );
}

#[test]
fn floats_project_to_numbers_and_non_finite_floats_are_refused() {
    let json = Value::Float64(Float64Value { bits: 1.5_f64.to_bits() }).to_json_value().unwrap();
    assert_json(&json, &JsonValue::Number(JsonNumber::Float(1.5_f64.to_bits())));
    let values = MultiValues::new(vec![
        Float64Value { bits: 1.0_f64.to_bits() },
        Float64Value { bits: f64::NAN.to_bits() },
    ]);
    assert_eq!(
        values.to_json_value().unwrap_err(),
        ValueError::JsonProjectionInvalid { data_type: DataType::Float64, source_index: Some(1) },
    );
    let half = Value::Float32(Float32Value { bits: 0.5_f32.to_bits() }).to_json_value().unwrap();
    assert_json(&half, &JsonValue::Number(JsonNumber::Float(0.5_f64.to_bits())));
}

#[test]
fn widening_a_float32_keeps_its_value() {
    for x in [0.0_f32, -0.0, 1.0, -2.5, 0.1, f32::MAX, f32::MIN_POSITIVE, 1.0e-40, -1.0e-45, 3.0e-39] {
        assert_eq!(widen_f32_bits(x.to_bits()), (x as f64).to_bits(), "{x}");
    }
}

#[test]
fn rendered_values_project_to_strings() {
    let days = chrono::NaiveDate::from_ymd_opt(2024, 1, 2).unwrap().num_days_from_ce();
    let date = Value::Date(DateValue { days_from_ce: days });
    assert_json(&date.to_json_value().unwrap(), &string("2024-01-02"));
    let big = Value::BigInteger(BigIntegerValue { negative: true, magnitude: vec![0, 1] });
    assert_json(&big.to_json_value().unwrap(), &string("-4294967296"));
    let bad_date = Value::Date(DateValue { days_from_ce: i32::MAX });
    assert_eq!(
        bad_date.to_json_value().unwrap_err(),
        ValueError::JsonProjectionInvalid { data_type: DataType::Date, source_index: None },
    );
}

#[test]
fn item_limit_refuses_the_element_past_it() {
    let limits = ProjectionLimits { max_items: 1, ..roomy() };
    let values = MultiValues::new(vec![1_i32, 2]);
    assert_eq!(
        values.to_json_value_with(&limits).unwrap_err(),
        ValueError::JsonProjectionLimit {
            data_type: DataType::Int32,
            source_index: Some(1),
            resource: BudgetResource::Items,
        },
    );
}

#[test]
fn node_limit_counts_the_array_node() {
    let limits = ProjectionLimits { max_nodes: 2, ..roomy() };
    let values = MultiValues::new(vec![1_i32, 2]);
    assert_eq!(
        values.to_json_value_with(&limits).unwrap_err(),
        ValueError::JsonProjectionLimit {
            data_type: DataType::Int32,
            source_index: Some(1),
            resource: BudgetResource::Nodes,
        },
    );
    let none = ProjectionLimits { max_nodes: 0, ..roomy() };
    assert_eq!(
        values.to_json_value_with(&none).unwrap_err(),
        ValueError::JsonProjectionLimit { data_type: DataType::Int32, source_index: None, resource: BudgetResource::Nodes },
    );
}

#[test]
fn output_limit_refuses_the_text_that_overflows_it() {
    let limits = ProjectionLimits { max_output_bytes: 4, ..roomy() };
    let values = MultiValues::new(vec!["ab", "cd", "ef"]);
    assert_eq!(
        values.to_json_value_with(&limits).unwrap_err(),
        ValueError::JsonProjectionLimit {
            data_type: DataType::String,
            source_index: Some(2),
            resource: BudgetResource::OutputBytes,
        },
    );
}

#[test]
fn text_and_depth_limits() {
    let text_limit = ProjectionLimits { max_text_bytes: 3, ..roomy() };
    assert_eq!(
        Value::String("abcd".to_string()).to_json_value_with(&text_limit).unwrap_err(),
        ValueError::JsonProjectionLimit { data_type: DataType::String, source_index: None, resource: BudgetResource::TextBytes },
    );
    let shallow = ProjectionLimits { max_depth: 1, ..roomy() };
    let values = MultiValues::new(vec![1_i32]);
    assert_eq!(
        values.to_json_value_with(&shallow).unwrap_err(),
        ValueError::JsonProjectionLimit { data_type: DataType::Int32, source_index: Some(0), resource: BudgetResource::Depth },
    );
}

#[test]
fn json_documents_are_charged_node_by_node() {
    let doc = JsonValue::Array(vec![JsonValue::Null, JsonValue::Object(vec![("k".to_string(), string("v"))])]);
    let mut budget = ProjectionBudget::new(&roomy());
    admit_json(&doc, 1, &mut budget).unwrap();
    assert_eq!(budget.structure.used_nodes, 4);
    assert_eq!(budget.structure.used_payload_bytes, 2);
    assert_eq!(budget.used_input_bytes, 2);
    assert_eq!(budget.used_output_bytes, 2);
    let mut tight = ProjectionBudget::new(&ProjectionLimits { max_nodes: 2, ..roomy() });
    assert_eq!(admit_json(&doc, 1, &mut tight), Err(BudgetResource::Nodes));
    assert_eq!(tight.structure.used_nodes, 2);
}

#[test]
fn project_scalar_charges_the_item_then_refuses_invalid_values() {
    let mut budget = ProjectionBudget::new(&roomy());
    let nan = Value::Float64(Float64Value { bits: f64::INFINITY.to_bits() });
    assert_eq!(project_scalar(&nan, 1, &mut budget).unwrap_err(), ProjectionFault::Invalid);
    assert_eq!(budget.used_items, 1);
    assert_eq!(budget.structure.used_nodes, 0);
}

#[test]
fn prepare_collection_reports_the_failing_index() {
    let values = MultiValues::new(vec![1_u8, 2, 3]);
    let mut budget = ProjectionBudget::new(&ProjectionLimits { max_items: 2, ..roomy() });
    assert_eq!(
        prepare_collection(values.view_ref(), &mut budget).unwrap_err(),
        ValueError::JsonProjectionLimit { data_type: DataType::UInt8, source_index: Some(2), resource: BudgetResource::Items },
    );
    assert_eq!(budget.used_items, 2);
}

#[test]
fn budget_text_and_display_charges() {
    let mut budget = ProjectionBudget::new(&roomy());
    budget.text("héllo", 1, false).unwrap();
    assert_eq!(budget.used_input_bytes, 6);
    assert_eq!(budget.used_output_bytes, 6);
    assert_eq!(budget.structure.used_nodes, 1);
    budget.text("key", 1, true).unwrap();
    assert_eq!(budget.structure.used_nodes, 1);
    assert_eq!(budget.structure.used_payload_bytes, 9);
    budget.display_text(24, 2).unwrap();
    assert_eq!(budget.used_output_bytes, 33);
    let mut small = ProjectionBudget::new(&ProjectionLimits { max_payload_bytes: 3, ..roomy() });
    assert_eq!(small.display_text(4, 1), Err(BudgetResource::PayloadBytes));
    assert_eq!(small.structure.used_nodes, 0);
}

#[test]
fn default_limits_match_the_conversion_defaults() {
    let limits = ProjectionLimits::default_limits();
    assert_eq!(limits.max_items, 65_536);
    assert_eq!(limits.max_depth, 128);
    assert_eq!(limits.max_text_bytes, 1_048_576);
}

#[test]
fn budgeted_hash_matches_the_identity_hash() {
    let doc = JsonValue::Array(vec![JsonValue::Null]);
    let values = MultiValues::new(vec![doc]);
    let mut plain = DefaultHasher::new();
    values.hash_identity(&mut plain);
    let mut state = DefaultHasher::new();
    let mut budget = StructureBudget { max_nodes: 10, max_depth: 10, max_payload_bytes: 10, max_sequence_items: 100, max_map_entries: 100, used_nodes: 0, used_payload_bytes: 0 };
    values.hash_with_json_budget(&mut state, &mut budget).unwrap();
    assert_eq!(state.finish(), plain.finish());
    assert_eq!(budget.used_nodes, 2);
}

#[test]
fn refused_budgeted_hash_leaves_hasher_and_budget_alone() {
    let values = MultiValues::new(vec![JsonValue::Array(vec![JsonValue::Null])]);
    let mut state = DefaultHasher::new();
    let before = DefaultHasher::new().finish();
    let mut budget = StructureBudget { max_nodes: 1, max_depth: 10, max_payload_bytes: 10, max_sequence_items: 100, max_map_entries: 100, used_nodes: 0, used_payload_bytes: 0 };
    assert_eq!(values.hash_with_json_budget(&mut state, &mut budget), Err(BudgetResource::Nodes));
    assert_eq!(state.finish(), before);
    assert_eq!(budget.used_nodes, 0);
    let numbers = MultiValues::new(vec![1_i32]);
    let mut none = StructureBudget { max_nodes: 0, max_depth: 0, max_payload_bytes: 0, max_sequence_items: 100, max_map_entries: 100, used_nodes: 0, used_payload_bytes: 0 };
    assert!(numbers.hash_with_json_budget(&mut state, &mut none).is_ok());
}

#[test]
fn borrowed_view_reads_the_collection() {
    let values = MultiValues::new(vec![3_i16, 4]);
    let view = values.view_ref();
    assert_eq!(view.len(), 2);
    assert_eq!(view.data_type(), DataType::Int16);
    assert!(!view.is_unset());
    assert!(matches!(view.get(1), Some(Value::Int16(4))));
    assert!(view.get(2).is_none());
    let unset = MultiValues::new_unset(DataType::Bool);
    assert!(unset.view_ref().is_unset());
    assert_eq!(unset.view_ref().len(), 0);
}

#[test]
fn merge_is_add_of_a_copy() {
    let base = MultiValues::new(vec![1_i32]);
    let other = MultiValues::new(vec![2_i32, 3]);
    let mut merged = base.clone();
    let mut added = base.clone();
    assert_eq!(merged.merge(&other), added.add(other.clone()));
    assert_eq!(merged, added);
    let text = MultiValues::new("x");
    let mut merged = base.clone();
    let mut added = base.clone();
    assert_eq!(merged.merge(&text), added.add(text.clone()));
    assert_eq!(merged, base);
    assert_eq!(added, base);
}

#[test]
fn times_durations_decimals_and_urls_project_to_their_text() {
    let days = chrono::NaiveDate::from_ymd_opt(2024, 1, 2).unwrap().num_days_from_ce();
    let time = TimeValue { secs_from_midnight: 12 * 3600 + 34 * 60 + 56, nanos: 0 };
    let date = DateValue { days_from_ce: days };
    assert_json(&Value::Time(time).to_json_value().unwrap(), &string("12:34:56"));
    let date_time = DateTimeValue { date, time };
    assert_json(&Value::DateTime(date_time).to_json_value().unwrap(), &string("2024-01-02 12:34:56"));
    assert_json(
        &Value::Instant(InstantValue { utc: date_time }).to_json_value().unwrap(),
        &string("2024-01-02 12:34:56 UTC"),
    );
    let expected = qubit_datatype::DataConverter::from(std::time::Duration::new(1, 500_000_000))
        .to::<String>()
        .unwrap();
    assert_json(
        &Value::Duration(DurationValue { secs: 1, nanos: 500_000_000 }).to_json_value().unwrap(),
        &string(&expected),
    );
    assert!(!expected.is_empty());
    assert_eq!(
        Value::Duration(DurationValue { secs: 1, nanos: 1_000_000_000 }).to_json_value().unwrap_err(),
        ValueError::JsonProjectionInvalid { data_type: DataType::Duration, source_index: None },
    );
    let decimal = BigDecimalValue { coefficient: BigIntegerValue { negative: false, magnitude: vec![12345] }, scale: 2 };
    assert_json(&Value::BigDecimal(decimal).to_json_value().unwrap(), &string("123.45"));
    let url = UrlValue { text: "https://example.com/".to_string() };
    assert_json(&Value::Url(url).to_json_value().unwrap(), &string("https://example.com/"));
    let bad_time = TimeValue { secs_from_midnight: 90_000, nanos: 0 };
    assert_eq!(
        Value::Time(bad_time).to_json_value().unwrap_err(),
        ValueError::JsonProjectionInvalid { data_type: DataType::Time, source_index: None },
    );
}

#[test]
fn json_payload_projects_to_itself() {
    let doc = JsonValue::Object(vec![("n".to_string(), JsonValue::Number(JsonNumber::NegInt(-3)))]);
    let values = MultiValues::new(vec![doc]);
    let json = values.to_json_value().unwrap();
    let expected = JsonValue::Array(vec![JsonValue::Object(vec![(
        "n".to_string(),
        JsonValue::Number(JsonNumber::NegInt(-3)),
    )])]);
    assert_json(&json, &expected);
}

fn nested(depth: usize) -> JsonValue {
    let mut value = JsonValue::Number(JsonNumber::PosInt(7));
    for level in 0..depth {
        value = if level % 2 == 0 {
            JsonValue::Array(vec![JsonValue::Null, value])
        } else {
            JsonValue::Object(vec![("k".to_string(), value)])
        };
    }
    value
}

#[test]
fn deep_documents_are_copied_compared_and_charged() {
    let doc = nested(2000);
    let copy = doc.duplicate();
    assert!(json_eq(&doc, &copy));
    assert!(!json_eq(&doc, &nested(1999)));
    let mut budget = ProjectionBudget::new(&ProjectionLimits { max_depth: 5000, ..roomy() });
    admit_json(&doc, 1, &mut budget).unwrap();
    assert_eq!(budget.structure.used_nodes, 3001);
    let mut shallow = ProjectionBudget::new(&ProjectionLimits { max_depth: 100, ..roomy() });
    assert_eq!(admit_json(&doc, 1, &mut shallow), Err(BudgetResource::Depth));
    let mut structure = StructureBudget { max_nodes: 10_000, max_depth: 5000, max_payload_bytes: 10_000, max_sequence_items: 100, max_map_entries: 100, used_nodes: 0, used_payload_bytes: 0 };
    qubit_value::json_budget::charge_json(&doc, 1, &mut structure).unwrap();
    assert_eq!(structure.used_nodes, 3001);
}

#[test]
fn container_size_limits_refuse_long_arrays_and_objects() {
    let values = MultiValues::new(vec![1_i32, 2, 3]);
    assert_eq!(
        values.to_json_value_with(&ProjectionLimits { max_sequence_items: 2, ..roomy() }).unwrap_err(),
        ValueError::JsonProjectionLimit { data_type: DataType::Int32, source_index: None, resource: BudgetResource::SequenceItems },
    );
    let mut map = StringMapValue::new();
    map.insert("a".to_string(), "1".to_string());
    map.insert("b".to_string(), "2".to_string());
    assert_eq!(
        Value::StringMap(map).to_json_value_with(&ProjectionLimits { max_map_entries: 1, ..roomy() }).unwrap_err(),
        ValueError::JsonProjectionLimit { data_type: DataType::StringMap, source_index: None, resource: BudgetResource::MapEntries },
    );
    let doc = JsonValue::Array(vec![JsonValue::Object(vec![("k".to_string(), JsonValue::Null), ("j".to_string(), JsonValue::Null)])]);
    let mut budget = ProjectionBudget::new(&ProjectionLimits { max_map_entries: 1, ..roomy() });
    assert_eq!(admit_json(&doc, 1, &mut budget), Err(BudgetResource::MapEntries));
    assert_eq!(budget.structure.used_nodes, 1);
    let mut structure = StructureBudget { max_nodes: 10, max_depth: 10, max_payload_bytes: 10, max_sequence_items: 0, max_map_entries: 10, used_nodes: 0, used_payload_bytes: 0 };
    assert_eq!(qubit_value::json_budget::charge_json(&doc, 1, &mut structure), Err(BudgetResource::SequenceItems));
    assert_eq!(ProjectionLimits::default_limits().max_sequence_items, 65_536);
}

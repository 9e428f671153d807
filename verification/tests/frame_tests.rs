use framelaw::frame::{DType, DataFrame, Series, UnknownKind, Value};
use framelaw::text::decimal_string;

fn col(name: &str, dtype: DType, values: Vec<Value>) -> Series {
    Series::new(name.to_string(), dtype, values)
}

#[test]
fn null_count_and_rows() {
    let s = col("a", DType::Int64, vec![Value::Null, Value::Int(1), Value::Null]);
    assert_eq!(s.len(), 3);
    assert!(!s.is_empty());
    assert_eq!(s.null_count(), 2);
    assert_eq!(s.null_rows(), vec![0, 2]);
}

#[test]
fn n_unique_counts_nulls_as_one_value() {
    let s = col(
        "a",
        DType::String,
        vec![
            Value::Str("x".to_string()),
            Value::Null,
            Value::Str("y".to_string()),
            Value::Null,
            Value::Str("x".to_string()),
        ],
    );
    assert_eq!(s.n_unique(), 3);
    let empty = col("e", DType::Int64, vec![]);
    assert_eq!(empty.n_unique(), 0);
    assert!(empty.is_empty());
}

#[test]
fn float_cells_compare_by_bits() {
    let s = col(
        "f",
        DType::Float64,
        vec![
            Value::Float(1.5f64.to_bits()),
            Value::Float(2.5f64.to_bits()),
            Value::Float(1.5f64.to_bits()),
        ],
    );
    assert_eq!(s.n_unique(), 2);
    assert_eq!(s.duplicated_rows(), vec![0, 2]);
}

#[test]
fn duplicated_rows_lists_all_occurrences() {
    let s = col(
        "b",
        DType::Boolean,
        vec![Value::Boolean(true), Value::Boolean(false), Value::Boolean(true)],
    );
    assert_eq!(s.duplicated_rows(), vec![0, 2]);
}

#[test]
fn value_equality_needs_same_variant() {
    assert!(Value::Int(1).same_as(&Value::Int(1)));
    assert!(!Value::Int(1).same_as(&Value::UInt(1)));
    assert!(Value::Null.same_as(&Value::Null));
    assert!(!Value::Null.same_as(&Value::Int(0)));
    assert!(Value::Null.is_null());
    assert!(!Value::Str(String::new()).is_null());
}

#[test]
fn column_lookup_returns_first_match() {
    let df = DataFrame::new(vec![
        col("a", DType::Int64, vec![Value::Int(1)]),
        col("b", DType::Int64, vec![Value::Int(2)]),
        col("a", DType::Int64, vec![Value::Int(3)]),
    ]);
    assert_eq!(df.width(), 3);
    assert_eq!(df.get_columns().len(), 3);
    let found = df.column("a").unwrap();
    assert!(found.values[0].same_as(&Value::Int(1)));
    assert!(df.column("b").is_some());
    assert!(df.column("c").is_none());
}

#[test]
fn numeric_types() {
    assert!(DType::Int8.is_numeric());
    assert!(DType::UInt128.is_integer());
    assert!(DType::Float32.is_float());
    assert!(DType::Decimal.is_numeric());
    assert!(!DType::Decimal.is_integer());
    assert!(DType::Unknown(UnknownKind::Int).is_numeric());
    assert!(DType::Unknown(UnknownKind::Float).is_float());
    assert!(!DType::Unknown(UnknownKind::Any).is_numeric());
    assert!(!DType::String.is_numeric());
    assert!(!DType::Date.is_numeric());
    assert!(!DType::Boolean.is_numeric());
}

#[test]
fn decimal_strings() {
    assert_eq!(decimal_string(0), "0");
    assert_eq!(decimal_string(7), "7");
    assert_eq!(decimal_string(10), "10");
    assert_eq!(decimal_string(1234), "1234");
    assert_eq!(decimal_string(usize::MAX), usize::MAX.to_string());
}

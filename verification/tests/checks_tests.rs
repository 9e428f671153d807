use framelaw::checks::{
    get_true_indices, mask_failures, regex_failures, type_mismatch_error, BuiltinCheck, Check,
    MatchesRegex, NotNull, OneOfString, UniqueValues,
};
use framelaw::errors::{ValidationError, ValidationReport};
use framelaw::frame::{DType, Series, Value};

fn strs(name: &str, values: &[Option<&str>]) -> Series {
    Series::new(
        name.to_string(),
        DType::String,
        values
            .iter()
            .map(|v| match v {
                Some(s) => Value::Str(s.to_string()),
                None => Value::Null,
            })
            .collect(),
    )
}

fn ints(name: &str, values: &[Option<i128>]) -> Series {
    Series::new(
        name.to_string(),
        DType::Int64,
        values
            .iter()
            .map(|v| match v {
                Some(i) => Value::Int(*i),
                None => Value::Null,
            })
            .collect(),
    )
}

fn only(errors: &[ValidationError]) -> &ValidationError {
    assert_eq!(errors.len(), 1);
    &errors[0]
}

#[test]
fn report_is_valid_only_without_errors() {
    let empty = ValidationReport { errors: vec![] };
    assert!(empty.is_valid());
    let one = ValidationReport {
        errors: vec![type_mismatch_error("a", "OneOfString", "String")],
    };
    assert!(!one.is_valid());
}

#[test]
fn not_null_reports_null_rows_and_count() {
    let s = ints("age", &[Some(1), None, Some(3), None]);
    let errors = NotNull.validate("age", &s);
    let e = only(&errors);
    assert_eq!(e.column, "age");
    assert_eq!(e.check, "NotNull");
    assert_eq!(e.rows, vec![1, 3]);
    assert_eq!(e.message, "Found 2 null values in 'age'");
}

#[test]
fn not_null_passes_without_nulls() {
    let s = ints("age", &[Some(1), Some(2)]);
    assert!(NotNull.validate("age", &s).is_empty());
    assert_eq!(NotNull.name(), "NotNull");
}

#[test]
fn not_null_message_counts_past_nine() {
    let values: Vec<Option<i128>> = (0..12).map(|_| None).collect();
    let s = ints("x", &values);
    let errors = NotNull.validate("x", &s);
    let e = only(&errors);
    assert_eq!(e.message, "Found 12 null values in 'x'");
    assert_eq!(e.rows, (0..12).collect::<Vec<usize>>());
}

#[test]
fn unique_values_reports_every_repeated_row() {
    let s = ints("id", &[Some(7), Some(8), Some(7), None, Some(9), None]);
    let errors = UniqueValues.validate("id", &s);
    let e = only(&errors);
    assert_eq!(e.check, "UniqueValues");
    assert_eq!(e.rows, vec![0, 2, 3, 5]);
    assert_eq!(e.message, "Found duplicated values in 'id'");
}

#[test]
fn unique_values_passes_on_distinct_values() {
    let s = strs("code", &[Some("a"), Some("b"), None]);
    assert!(UniqueValues.validate("code", &s).is_empty());
}

#[test]
fn matches_regex_reports_unmatched_strings() {
    let check = MatchesRegex::new(r"^[a-z]+@[a-z]+\.com$").ok().unwrap();
    assert_eq!(check.as_str(), r"^[a-z]+@[a-z]+\.com$");
    let s = strs("email", &[Some("ann@x.com"), Some("nope"), None, Some("BOB@x.com")]);
    let errors = check.validate("email", &s);
    let e = only(&errors);
    assert_eq!(e.check, "MatchesRegex");
    assert_eq!(e.rows, vec![1, 3]);
    assert_eq!(
        e.message,
        r"Values in 'email' do not match pattern '^[a-z]+@[a-z]+\.com$'"
    );
}

#[test]
fn matches_regex_unanchored_pattern_matches_anywhere() {
    let check = MatchesRegex::new("b").ok().unwrap();
    let s = strs("w", &[Some("abc"), Some("xyz")]);
    let errors = check.validate("w", &s);
    assert_eq!(only(&errors).rows, vec![1]);
}

#[test]
fn matches_regex_rejects_invalid_pattern() {
    match MatchesRegex::new("foo(bar") {
        Ok(_) => panic!("an unclosed group must not compile"),
        Err(e) => assert_eq!(e.pattern, "foo(bar"),
    }
}

#[test]
fn matches_regex_on_non_string_column_is_a_type_error() {
    let check = MatchesRegex::new("x").ok().unwrap();
    let s = ints("n", &[Some(1)]);
    let errors = check.validate("n", &s);
    let e = only(&errors);
    assert_eq!(e.check, "MatchesRegex");
    assert!(e.rows.is_empty());
    assert_eq!(e.message, "Failed to dynamically cast column to String");
}

#[test]
fn one_of_string_reports_values_outside_the_set() {
    let check = OneOfString::new(vec!["FR".to_string(), "US".to_string(), "DE".to_string()]);
    let s = strs("country", &[Some("FR"), Some("XX"), None, Some("DE"), Some("fr")]);
    let errors = check.validate("country", &s);
    let e = only(&errors);
    assert_eq!(e.check, "OneOfString");
    assert_eq!(e.rows, vec![1, 4]);
    assert_eq!(e.message, "Values in 'country' are not part of the allowed set");
}

#[test]
fn one_of_string_on_non_string_column_is_a_type_error() {
    let check = OneOfString::new(vec!["a".to_string()]);
    let s = ints("n", &[Some(1)]);
    let errors = check.validate("n", &s);
    let e = only(&errors);
    assert_eq!(e.check, "OneOfString");
    assert!(e.rows.is_empty());
    assert_eq!(e.message, "Failed to dynamically cast column to String");
}

#[test]
fn one_of_string_passes_when_all_allowed() {
    let check = OneOfString::new(vec!["a".to_string(), "b".to_string()]);
    let s = strs("c", &[Some("a"), None, Some("b"), Some("a")]);
    assert!(check.validate("c", &s).is_empty());
}

#[test]
fn builtin_check_delegates_to_each_rule() {
    let s = strs("c", &[Some("a"), Some("a"), None]);
    let nn = BuiltinCheck::NotNull.validate("c", &s);
    assert_eq!(only(&nn).rows, vec![2]);
    let un = BuiltinCheck::UniqueValues.validate("c", &s);
    assert_eq!(only(&un).rows, vec![0, 1]);
    let one = BuiltinCheck::OneOfString(OneOfString::new(vec!["b".to_string()]));
    assert_eq!(one.name(), "OneOfString");
    assert_eq!(only(&one.validate("c", &s)).rows, vec![0, 1]);
}

#[test]
fn boxed_checks_behave_like_the_rule_inside() {
    let boxed: Box<dyn Check> = Box::new(NotNull);
    let s = ints("a", &[None]);
    assert_eq!(boxed.name(), "NotNull");
    assert_eq!(only(&boxed.validate("a", &s)).rows, vec![0]);
}

#[test]
fn true_indices_skip_false_and_null_entries() {
    let mask = vec![Some(true), Some(false), None, Some(true)];
    assert_eq!(get_true_indices(&mask), vec![0, 3]);
    assert!(get_true_indices(&vec![]).is_empty());
}

#[test]
fn mask_failures_builds_one_error_or_none() {
    let errors = mask_failures(
        "score",
        "GreaterThanF64",
        &vec![Some(false), Some(true)],
        "Values in 'score' must be > 0".to_string(),
    );
    let e = only(&errors);
    assert_eq!(e.column, "score");
    assert_eq!(e.check, "GreaterThanF64");
    assert_eq!(e.rows, vec![1]);
    assert_eq!(e.message, "Values in 'score' must be > 0");
    let none = mask_failures("s", "c", &vec![Some(false), None], "m".to_string());
    assert!(none.is_empty());
}

#[test]
fn type_mismatch_error_names_the_expected_type() {
    let e = type_mismatch_error("score", "BetweenF64", "f64");
    assert_eq!(e.column, "score");
    assert_eq!(e.check, "BetweenF64");
    assert!(e.rows.is_empty());
    assert_eq!(e.message, "Failed to dynamically cast column to f64");
}

#[test]
fn reported_rows_are_strictly_increasing() {
    let s = ints("v", &[None, Some(1), None, Some(1), None]);
    for errors in [NotNull.validate("v", &s), UniqueValues.validate("v", &s)] {
        let e = only(&errors);
        assert!(e.rows.windows(2).all(|w| w[0] < w[1]));
        assert!(e.rows.iter().all(|r| *r < 5));
    }
}

#[test]
fn one_of_string_accepts_categorical_columns() {
    let check = OneOfString::new(vec!["a".to_string()]);
    for dtype in [DType::Categorical, DType::Enum] {
        let s = Series::new(
            "c".to_string(),
            dtype,
            vec![Value::Str("a".to_string()), Value::Str("b".to_string()), Value::Null],
        );
        assert_eq!(only(&check.validate("c", &s)).rows, vec![1]);
    }
}

#[test]
fn match_verdicts_per_row() {
    let check = MatchesRegex::new("^a").ok().unwrap();
    let s = strs("w", &[Some("ab"), None, Some("ba")]);
    assert_eq!(check.match_verdicts(&s), vec![Some(true), None, Some(false)]);
}

#[test]
fn regex_failures_lists_false_verdicts() {
    let errors = regex_failures("w", "^a", &vec![Some(true), None, Some(false), Some(false)]);
    let e = only(&errors);
    assert_eq!(e.check, "MatchesRegex");
    assert_eq!(e.rows, vec![2, 3]);
    assert_eq!(e.message, "Values in 'w' do not match pattern '^a'");
    assert!(regex_failures("w", "^a", &vec![Some(true), None]).is_empty());
}

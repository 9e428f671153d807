use framelaw::checks::{BuiltinCheck, Check};
use framelaw::frame::{DType, DataFrame, Series, Value};
use framelaw::inference::{
    infer_schema, infer_series_schema, pattern_applies, InferredColumn, Suggestion, EMAIL_PATTERN,
    ISO_DATE_PATTERN, URL_PATTERN, UUID_PATTERN,
};
use framelaw::schema::Schema;

fn strs(name: &str, values: &[Option<&str>]) -> Series {
    Series::new(
        name.to_string(),
        DType::String,
        values
            .iter()
            .map(|v| match v {
                Some(s) => Value::Str(s.to_string()),
                None => Value::Null,
            })
            .collect(),
    )
}

fn ints(name: &str, values: &[Option<i128>]) -> Series {
    Series::new(
        name.to_string(),
        DType::Int64,
        values
            .iter()
            .map(|v| match v {
                Some(i) => Value::Int(*i),
                None => Value::Null,
            })
            .collect(),
    )
}

fn kinds(col: &InferredColumn) -> Vec<String> {
    col.checks
        .iter()
        .map(|c| match c {
            Suggestion::Check(BuiltinCheck::NotNull) => "NotNull".to_string(),
            Suggestion::Check(BuiltinCheck::UniqueValues) => "UniqueValues".to_string(),
            Suggestion::Check(BuiltinCheck::MatchesRegex(m)) => format!("MatchesRegex({})", m.as_str()),
            Suggestion::Check(BuiltinCheck::OneOfString(_)) => "OneOfString".to_string(),
            Suggestion::GreaterThanMin => "GreaterThanMin".to_string(),
            Suggestion::LessThanMax => "LessThanMax".to_string(),
        })
        .collect()
}

#[test]
fn unique_integer_column() {
    let col = infer_series_schema(&ints("id", &[Some(3), Some(1), Some(2)]));
    assert_eq!(col.name, "id");
    assert_eq!(col.dtype, DType::Int64);
    assert!(!col.nullable);
    assert_eq!(kinds(&col), vec!["NotNull", "UniqueValues", "GreaterThanMin", "LessThanMax"]);
}

#[test]
fn integer_column_with_nulls_and_repeats() {
    let col = infer_series_schema(&ints("n", &[Some(1), None, Some(1)]));
    assert!(col.nullable);
    assert_eq!(kinds(&col), vec!["GreaterThanMin", "LessThanMax"]);
}

#[test]
fn all_null_numeric_column_gets_no_bounds() {
    let col = infer_series_schema(&ints("n", &[None, None]));
    assert!(col.nullable);
    assert!(kinds(&col).is_empty());
}

#[test]
fn empty_column_only_gets_not_null() {
    let col = infer_series_schema(&ints("e", &[]));
    assert!(!col.nullable);
    assert_eq!(kinds(&col), vec!["NotNull"]);
}

fn repeat(values: &[&str], times: usize) -> Vec<Option<String>> {
    let mut out = Vec::new();
    for _ in 0..times {
        for v in values {
            out.push(Some(v.to_string()));
        }
    }
    out
}

fn owned_strs(name: &str, values: &[Option<String>]) -> Series {
    let borrowed: Vec<Option<&str>> = values.iter().map(|v| v.as_deref()).collect();
    strs(name, &borrowed)
}

#[test]
fn categorical_string_column() {
    let s = owned_strs("country", &repeat(&["FR", "US"], 20));
    let col = infer_series_schema(&s);
    assert_eq!(kinds(&col), vec!["NotNull", "OneOfString"]);
    match &col.checks[1] {
        Suggestion::Check(c) => {
            assert!(c.validate("country", &s).is_empty());
            let other = strs("country", &[Some("IT"), Some("FR")]);
            assert_eq!(c.validate("country", &other)[0].rows, vec![0]);
        }
        _ => panic!("expected a rule"),
    }
}

#[test]
fn categorical_needs_one_distinct_value_per_twenty_rows() {
    let s = owned_strs("c", &repeat(&["x"], 20));
    assert_eq!(kinds(&infer_series_schema(&s)), vec!["NotNull", "OneOfString"]);
    let s = owned_strs("c", &repeat(&["x"], 19));
    assert_eq!(kinds(&infer_series_schema(&s)), vec!["NotNull"]);
}

#[test]
fn categorical_needs_at_most_twenty_distinct_values() {
    let names: Vec<String> = (0..21).map(|i| format!("v{}", i)).collect();
    let refs: Vec<&str> = names.iter().map(|s| s.as_str()).collect();
    let s = owned_strs("c", &repeat(&refs, 30));
    assert_eq!(kinds(&infer_series_schema(&s)), vec!["NotNull"]);
    let s = owned_strs("c", &repeat(&refs[..20], 30));
    assert_eq!(kinds(&infer_series_schema(&s)), vec!["NotNull", "OneOfString"]);
}

#[test]
fn few_rows_are_not_categorical() {
    let s = strs("country", &[Some("FR"), Some("US"), Some("FR"), None, Some("DE")]);
    let col = infer_series_schema(&s);
    assert!(col.nullable);
    assert!(kinds(&col).is_empty());
}

#[test]
fn uuid_column() {
    let s = strs(
        "key",
        &[
            Some("123e4567-e89b-12d3-a456-426614174000"),
            Some("123E4567-E89B-12D3-A456-426614174001"),
        ],
    );
    let col = infer_series_schema(&s);
    assert_eq!(
        kinds(&col),
        vec![
            "NotNull".to_string(),
            "UniqueValues".to_string(),
            format!("MatchesRegex({})", UUID_PATTERN)
        ]
    );
}

#[test]
fn email_column() {
    let s = strs("mail", &[Some("a@b.io"), Some("c.d@e-f.org"), None]);
    let col = infer_series_schema(&s);
    assert_eq!(kinds(&col), vec![format!("MatchesRegex({})", EMAIL_PATTERN)]);
}

#[test]
fn iso_date_column() {
    let s = strs("day", &[Some("2024-01-31"), Some("2023-12-01T10:20:30Z"), Some("2023-12-01 10:20")]);
    let col = infer_series_schema(&s);
    assert_eq!(
        kinds(&col),
        vec![
            "NotNull".to_string(),
            "UniqueValues".to_string(),
            format!("MatchesRegex({})", ISO_DATE_PATTERN)
        ]
    );
}

#[test]
fn url_column() {
    let s = strs("site", &[Some("https://example.com/a?b=1"), Some("http://x.org")]);
    let col = infer_series_schema(&s);
    assert_eq!(
        kinds(&col),
        vec![
            "NotNull".to_string(),
            "UniqueValues".to_string(),
            format!("MatchesRegex({})", URL_PATTERN)
        ]
    );
}

#[test]
fn one_value_off_pattern_means_no_pattern() {
    let s = strs(
        "key",
        &[Some("123e4567-e89b-12d3-a456-426614174000"), Some("zzzzzzzz-zzzz-zzzz-zzzz-zzzzzzzzzzzz")],
    );
    assert_eq!(kinds(&infer_series_schema(&s)), vec!["NotNull", "UniqueValues"]);
}

#[test]
fn categorical_column_can_also_get_a_pattern() {
    let s = owned_strs("mail", &repeat(&["a@b.io"], 20));
    assert_eq!(
        kinds(&infer_series_schema(&s)),
        vec![
            "NotNull".to_string(),
            format!("MatchesRegex({})", EMAIL_PATTERN),
            "OneOfString".to_string()
        ]
    );
}

#[test]
fn all_null_string_column_gets_nothing() {
    let s = strs("s", &[None, None, None]);
    let col = infer_series_schema(&s);
    assert!(col.nullable);
    assert!(kinds(&col).is_empty());
}

#[test]
fn free_text_column_gets_no_pattern() {
    let s = strs("note", &[Some("hello"), Some("world")]);
    let col = infer_series_schema(&s);
    assert_eq!(kinds(&col), vec!["NotNull", "UniqueValues"]);
}

#[test]
fn inferred_rules_hold_on_their_data() {
    let df = DataFrame::new(vec![
        ints("id", &[Some(1), Some(2), Some(3), Some(4)]),
        strs("tier", &[Some("gold"), Some("free"), Some("free"), Some("gold")]),
        strs("name", &[Some("ann"), None, Some("bob"), Some("cy")]),
        strs("day", &[Some("2024-01-01"), Some("2024-01-02"), Some("2024-01-01"), None]),
        owned_strs("plan", &repeat(&["gold", "free"], 20)),
    ]);
    let cols = infer_schema(&df);
    assert_eq!(cols.len(), 5);
    let all: Vec<String> = cols.iter().flat_map(|c| kinds(c)).collect();
    assert!(all.contains(&"OneOfString".to_string()));
    assert!(all.contains(&format!("MatchesRegex({})", ISO_DATE_PATTERN)));
    for (col, series) in cols.iter().zip(df.columns.iter()) {
        for c in &col.checks {
            if let Suggestion::Check(check) = c {
                assert!(check.validate(&col.name, series).is_empty());
            }
        }
    }
}

#[test]
fn categorical_type_gets_its_categories() {
    let s = Series::new(
        "tier".to_string(),
        DType::Categorical,
        vec![Value::Str("gold".to_string()), Value::Null, Value::Str("free".to_string())],
    );
    let col = infer_series_schema(&s);
    assert!(col.nullable);
    assert_eq!(kinds(&col), vec!["OneOfString"]);
    match &col.checks[0] {
        Suggestion::Check(c) => assert!(c.validate("tier", &s).is_empty()),
        _ => panic!("expected a rule"),
    }
}

#[test]
fn pattern_decision_needs_a_string_and_all_matches() {
    assert!(pattern_applies(&vec![true, true]));
    assert!(!pattern_applies(&vec![true, false]));
    assert!(!pattern_applies(&vec![]));
}

#[test]
fn into_spec_keeps_rules_and_drops_bounds() {
    let col = infer_series_schema(&ints("id", &[Some(3), Some(1)]));
    let spec = col.into_spec();
    assert_eq!(spec.name, "id");
    assert_eq!(spec.dtype, DType::Int64);
    assert!(!spec.nullable);
    assert_eq!(spec.checks.len(), 2);
    assert!(matches!(spec.checks[0], BuiltinCheck::NotNull));
    assert!(matches!(spec.checks[1], BuiltinCheck::UniqueValues));
}

#[test]
fn frame_validates_against_its_inferred_schema() {
    let df = DataFrame::new(vec![
        ints("id", &[Some(1), Some(2), None, Some(4)]),
        strs("mail", &[Some("a@b.io"), Some("c@d.org"), Some("a@b.io"), None]),
        strs("day", &[Some("2024-01-01"), Some("2024-01-02"), Some("2024-01-01"), Some("2024-01-03")]),
        Series::new(
            "tier".to_string(),
            DType::Enum,
            vec![
                Value::Str("gold".to_string()),
                Value::Str("free".to_string()),
                Value::Null,
                Value::Str("free".to_string()),
            ],
        ),
    ]);
    let schema: Schema<BuiltinCheck> =
        Schema::new(infer_schema(&df).into_iter().map(|c| c.into_spec()).collect());
    let report = schema.validate(&df);
    assert!(report.is_valid(), "{}", report.summary());
    let other = DataFrame::new(vec![ints("id", &[Some(1), Some(1)])]);
    assert!(!schema.validate(&other).is_valid());
}

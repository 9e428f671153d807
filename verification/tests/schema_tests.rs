use framelaw::checks::{BuiltinCheck, Check, NotNull, OneOfString, UniqueValues};
use framelaw::column::ColumnSpec;
use framelaw::errors::ValidationError;
use framelaw::frame::{DType, DataFrame, Series, UnknownKind, Value};
use framelaw::schema::{collect_report, Schema};

fn strs(name: &str, values: &[Option<&str>]) -> Series {
    Series::new(
        name.to_string(),
        DType::String,
        values
            .iter()
            .map(|v| match v {
                Some(s) => Value::Str(s.to_string()),
                None => Value::Null,
            })
            .collect(),
    )
}

fn frame() -> DataFrame {
    DataFrame::new(vec![
        strs("user", &[Some("a"), Some("b"), Some("a")]),
        strs("country", &[Some("FR"), None, Some("XX")]),
    ])
}

fn err(column: &str, check: &str) -> ValidationError {
    ValidationError {
        column: column.to_string(),
        check: check.to_string(),
        rows: vec![],
        message: String::new(),
    }
}

#[test]
fn missing_column_yields_one_error_and_runs_no_check() {
    let spec: ColumnSpec<BuiltinCheck> = ColumnSpec {
        name: "age".to_string(),
        dtype: DType::Int64,
        nullable: false,
        checks: vec![BuiltinCheck::NotNull, BuiltinCheck::UniqueValues],
    };
    let errors = spec.validate(&frame());
    assert_eq!(errors.len(), 1);
    assert_eq!(errors[0].column, "age");
    assert_eq!(errors[0].check, "ColumnExists");
    assert!(errors[0].rows.is_empty());
    assert_eq!(errors[0].message, "Column 'age' is missing from DataFrame");
}

#[test]
fn column_errors_follow_check_order() {
    let spec: ColumnSpec<BuiltinCheck> = ColumnSpec {
        name: "country".to_string(),
        dtype: DType::String,
        nullable: true,
        checks: vec![
            BuiltinCheck::OneOfString(OneOfString::new(vec!["FR".to_string()])),
            BuiltinCheck::NotNull,
        ],
    };
    let errors = spec.validate(&frame());
    assert_eq!(errors.len(), 2);
    assert_eq!(errors[0].check, "OneOfString");
    assert_eq!(errors[0].rows, vec![2]);
    assert_eq!(errors[1].check, "NotNull");
    assert_eq!(errors[1].rows, vec![1]);
}

#[test]
fn non_nullable_spec_reports_null_rows() {
    let spec: ColumnSpec<BuiltinCheck> = ColumnSpec {
        name: "country".to_string(),
        dtype: DType::String,
        nullable: false,
        checks: vec![],
    };
    let errors = spec.validate(&frame());
    assert_eq!(errors.len(), 1);
    assert_eq!(errors[0].column, "country");
    assert_eq!(errors[0].check, "Nullable");
    assert_eq!(errors[0].rows, vec![1]);
    assert_eq!(errors[0].message, "Found 1 null values in non-nullable column 'country'");
}

#[test]
fn nullable_spec_allows_nulls() {
    let spec: ColumnSpec<BuiltinCheck> = ColumnSpec {
        name: "country".to_string(),
        dtype: DType::String,
        nullable: true,
        checks: vec![],
    };
    assert!(spec.validate(&frame()).is_empty());
}

#[test]
fn declared_type_mismatch_is_reported_first() {
    let spec: ColumnSpec<BuiltinCheck> = ColumnSpec {
        name: "country".to_string(),
        dtype: DType::Int64,
        nullable: false,
        checks: vec![BuiltinCheck::NotNull],
    };
    let errors = spec.validate(&frame());
    let checks: Vec<&str> = errors.iter().map(|e| e.check.as_str()).collect();
    assert_eq!(checks, vec!["DataType", "Nullable", "NotNull"]);
    assert!(errors[0].rows.is_empty());
    assert_eq!(errors[0].message, "Column 'country' has type String but Int64 was expected");
}

#[test]
fn undetermined_declared_type_is_not_checked() {
    let spec: ColumnSpec<BuiltinCheck> = ColumnSpec {
        name: "user".to_string(),
        dtype: DType::Unknown(UnknownKind::Int),
        nullable: true,
        checks: vec![],
    };
    assert!(spec.validate(&frame()).is_empty());
}

#[test]
fn schema_gathers_errors_in_column_order() {
    let columns: Vec<ColumnSpec> = vec![
        ColumnSpec {
            name: "user".to_string(),
            dtype: DType::String,
            nullable: false,
            checks: vec![Box::new(NotNull) as Box<dyn Check>, Box::new(UniqueValues)],
        },
        ColumnSpec {
            name: "missing".to_string(),
            dtype: DType::String,
            nullable: true,
            checks: vec![],
        },
        ColumnSpec {
            name: "country".to_string(),
            dtype: DType::String,
            nullable: true,
            checks: vec![Box::new(NotNull) as Box<dyn Check>],
        },
    ];
    let schema = Schema::new(columns);
    let report = schema.validate(&frame());
    assert!(!report.is_valid());
    let got: Vec<(String, String)> = report
        .errors
        .iter()
        .map(|e| (e.column.clone(), e.check.clone()))
        .collect();
    assert_eq!(
        got,
        vec![
            ("user".to_string(), "UniqueValues".to_string()),
            ("missing".to_string(), "ColumnExists".to_string()),
            ("country".to_string(), "NotNull".to_string()),
        ]
    );
    assert_eq!(report.errors[0].rows, vec![0, 2]);
}

#[test]
fn schema_without_failures_is_valid() {
    let schema: Schema<BuiltinCheck> = Schema::new(vec![ColumnSpec {
        name: "user".to_string(),
        dtype: DType::String,
        nullable: false,
        checks: vec![BuiltinCheck::NotNull],
    }]);
    assert!(schema.validate(&frame()).is_valid());
    let empty: Schema<BuiltinCheck> = Schema::new(vec![]);
    assert!(empty.validate(&frame()).is_valid());
}

#[test]
fn collect_report_concatenates_in_order() {
    let report = collect_report(vec![
        vec![err("a", "x"), err("a", "y")],
        vec![],
        vec![err("b", "z")],
    ]);
    let checks: Vec<&str> = report.errors.iter().map(|e| e.check.as_str()).collect();
    assert_eq!(checks, vec!["x", "y", "z"]);
    assert!(collect_report(vec![vec![], vec![]]).is_valid());
}

#[test]
fn summary_lists_rows_or_message_per_error() {
    let spec: Schema<BuiltinCheck> = Schema::new(vec![
        ColumnSpec {
            name: "user".to_string(),
            dtype: DType::String,
            nullable: false,
            checks: vec![BuiltinCheck::UniqueValues],
        },
        ColumnSpec {
            name: "age".to_string(),
            dtype: DType::Int64,
            nullable: false,
            checks: vec![BuiltinCheck::NotNull],
        },
    ]);
    let report = spec.validate(&frame());
    assert_eq!(
        report.summary(),
        "Column 'user': 2 rows failed check 'UniqueValues' → rows [0, 2]\n\
         Column 'age': check 'ColumnExists' failed: Column 'age' is missing from DataFrame"
    );
    assert_eq!(collect_report(vec![]).summary(), "");
}

#[test]
fn schema_of_two_parts_reports_both_parts_in_order() {
    let make = |name: &str, check: BuiltinCheck| ColumnSpec {
        name: name.to_string(),
        dtype: DType::String,
        nullable: true,
        checks: vec![check],
    };
    let a: Schema<BuiltinCheck> = Schema::new(vec![make("user", BuiltinCheck::UniqueValues)]);
    let b: Schema<BuiltinCheck> = Schema::new(vec![make("country", BuiltinCheck::NotNull)]);
    let ab: Schema<BuiltinCheck> = Schema::new(vec![
        make("user", BuiltinCheck::UniqueValues),
        make("country", BuiltinCheck::NotNull),
    ]);
    let df = frame();
    let checks = |r: &framelaw::errors::ValidationReport| -> Vec<String> {
        r.errors.iter().map(|e| format!("{}/{}/{:?}", e.column, e.check, e.rows)).collect()
    };
    let mut expected = checks(&a.validate(&df));
    expected.extend(checks(&b.validate(&df)));
    assert_eq!(checks(&ab.validate(&df)), expected);
}

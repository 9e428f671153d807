use vstd::prelude::*;
use vstd::string::*;

use crate::checks::Check;
use crate::errors::{error_view, errors_view, ErrorView, ValidationError};
use crate::frame::{dtype_name, find_column, null_count, null_rows, DType, DataFrame, Series, SeriesView};

verus! {

/// The expected shape of one column: its name, its type, whether nulls are
/// allowed, and the rules its values must obey.
pub struct ColumnSpec<C = Box<dyn Check>> {
    pub name: String,
    pub dtype: DType,
    pub nullable: bool,
    pub checks: Vec<C>,
}

pub open spec fn missing_column_message(name: Seq<char>) -> Seq<char> {
    "Column '"@ + name + "' is missing from DataFrame"@
}

/// The error reported for a column that the frame does not have.
pub open spec fn missing_column_view(name: Seq<char>) -> ErrorView {
    error_view(name, "ColumnExists"@, seq![], missing_column_message(name))
}

pub open spec fn dtype_message(name: Seq<char>, found: DType, expected: DType) -> Seq<char> {
    "Column '"@ + name + "' has type "@ + dtype_name(found) + " but "@ + dtype_name(expected)
        + " was expected"@
}

pub open spec fn nullable_message(count: nat, name: Seq<char>) -> Seq<char> {
    "Found "@ + crate::text::decimal(count) + " null values in non-nullable column '"@ + name
        + "'"@
}

/// The errors for what a column spec declares about its column, in order:
/// a "DataType" error when the spec names a determined type that the column
/// does not have, then a "Nullable" error listing the null rows when the spec
/// forbids nulls and the column holds some.
pub open spec fn declared_outcome(
    name: Seq<char>,
    dtype: DType,
    nullable: bool,
    s: SeriesView,
) -> Seq<ErrorView> {
    (if !(dtype is Unknown) && s.dtype != dtype {
        seq![error_view(name, "DataType"@, seq![], dtype_message(name, s.dtype, dtype))]
    } else {
        seq![]
    }) + (if !nullable && null_count(s.cells) > 0 {
        seq![
            error_view(
                name,
                "Nullable"@,
                null_rows(s.cells),
                nullable_message(null_count(s.cells), name),
            ),
        ]
    } else {
        seq![]
    })
}

/// `out` is a result that `check.validate` may return when given the column
/// name `column` and the column `series`.
pub open spec fn check_ran<C: Check>(
    check: C,
    column: Seq<char>,
    series: Series,
    out: Seq<ValidationError>,
) -> bool {
    exists|name: &str, errs: Vec<ValidationError>|
        name@ == column && errs@ == out && call_ensures(C::validate, (&check, name, &series), errs)
}

/// `out` is a result of validating the column spec `spec` against `df`:
/// the single "ColumnExists" error when `df` has no column of that name,
/// otherwise the errors for the declared type and nullability followed by
/// the results of its checks on that column, concatenated in the order of
/// the checks.
pub open spec fn column_result<C: Check>(
    spec: ColumnSpec<C>,
    df: DataFrame,
    out: Seq<ValidationError>,
) -> bool {
    match find_column(df.columns@, spec.name@) {
        None => errors_view(out) == seq![missing_column_view(spec.name@)],
        Some(series) => exists|head: Seq<ValidationError>, outs: Seq<Seq<ValidationError>>|
            {
                &&& errors_view(head) == declared_outcome(
                    spec.name@,
                    spec.dtype,
                    spec.nullable,
                    series@,
                )
                &&& outs.len() == spec.checks@.len()
                &&& forall|i: int|
                    0 <= i < outs.len() ==> check_ran(spec.checks@[i], spec.name@, series, #[trigger] outs[i])
                &&& out == head + outs.flatten()
            },
    }
}

/// The errors for a column's declared type and nullability.
fn declared_errors(name: &String, dtype: DType, nullable: bool, series: &Series) -> (errors: Vec<
    ValidationError,
>)
    ensures
        errors_view(errors@) == declared_outcome(name@, dtype, nullable, series@),
{
    let mut errors: Vec<ValidationError> = Vec::new();
    let unknown = match dtype {
        DType::Unknown(_) => true,
        _ => false,
    };
    if !unknown && series.dtype != dtype {
        let mut message = String::from_str("Column '");
        message.append(name.as_str());
        message.append("' has type ");
        message.append(series.dtype.name());
        message.append(" but ");
        message.append(dtype.name());
        message.append(" was expected");
        errors.push(
            ValidationError {
                column: name.clone(),
                check: String::from_str("DataType"),
                rows: Vec::new(),
                message,
            },
        );
    }
    let ghost typed = errors_view(errors@);
    let count = series.null_count();
    if !nullable && count > 0 {
        let mut message = String::from_str("Found ");
        message.append(crate::text::decimal_string(count).as_str());
        message.append(" null values in non-nullable column '");
        message.append(name.as_str());
        message.append("'");
        errors.push(
            ValidationError {
                column: name.clone(),
                check: String::from_str("Nullable"),
                rows: series.null_rows(),
                message,
            },
        );
    }
    proof {
        assert(errors_view(errors@) =~= declared_outcome(name@, dtype, nullable, series@));
    }
    errors
}

impl<C: Check> ColumnSpec<C> {
    /// Looks the column up by name in `df`, reports a type other than the
    /// declared one (unless the declared type is undetermined) and nulls in a
    /// non-nullable column, then runs every check on it, in order; a missing
    /// column yields one "ColumnExists" error and no check runs.
    pub fn validate(&self, df: &DataFrame) -> (errors: Vec<ValidationError>)
        ensures
            column_result(*self, *df, errors@),
    {
        let series: &Series = match df.column(self.name.as_str()) {
            Some(s) => s,
            None => {
                let mut message = String::from_str("Column '");
                message.append(self.name.as_str());
                message.append("' is missing from DataFrame");
                let mut errors: Vec<ValidationError> = Vec::new();
                errors.push(
                    ValidationError {
                        column: self.name.clone(),
                        check: String::from_str("ColumnExists"),
                        rows: Vec::new(),
                        message,
                    },
                );
                proof {
                    assert(errors_view(errors@) =~= seq![missing_column_view(self.name@)]);
                }
                return errors;
            },
        };
        let name = self.name.as_str();
        let mut errors = declared_errors(&self.name, self.dtype, self.nullable, series);
        let ghost head = errors@;
        let ghost mut outs: Seq<Seq<ValidationError>> = seq![];
        assert(head + outs.flatten() =~= head);
        let mut i: usize = 0;
        while i < self.checks.len()
            invariant
                find_column(df.columns@, self.name@) == Some(*series),
                name@ == self.name@,
                i <= self.checks@.len(),
                outs.len() == i,
                forall|k: int|
                    0 <= k < i ==> check_ran(self.checks@[k], self.name@, *series, #[trigger] outs[k]),
                errors_view(head) == declared_outcome(
                    self.name@,
                    self.dtype,
                    self.nullable,
                    series@,
                ),
                errors@ == head + outs.flatten(),
            decreases self.checks@.len() - i,
        {
            let mut found = self.checks[i].validate(name, series);
            proof {
                assert(check_ran(self.checks@[i as int], self.name@, *series, found@));
                outs.lemma_flatten_push(found@);
                outs = outs.push(found@);
            }
            let ghost prev = errors@;
            errors.append(&mut found);
            assert(errors@ =~= head + outs.flatten());
            i = i + 1;
        }
        errors
    }
}

} // verus!

verus! {

/// With the built-in rules, the result of a check is fully determined.
pub proof fn lemma_builtin_check_ran(
    check: crate::checks::BuiltinCheck,
    column: Seq<char>,
    series: Series,
    out: Seq<ValidationError>,
)
    requires
        check_ran(check, column, series, out),
    ensures
        errors_view(out) == crate::checks::builtin_outcome(check, column, series@),
{
    let (name, errs) = choose|name: &str, errs: Vec<ValidationError>|
        name@ == column && errs@ == out && call_ensures(
            crate::checks::BuiltinCheck::validate,
            (&check, name, &series),
            errs,
        );
}

} // verus!

verus! {

/// The errors of validating `df` against a column spec of built-in rules.
pub open spec fn builtin_column_outcome(
    spec: ColumnSpec<crate::checks::BuiltinCheck>,
    df: DataFrame,
) -> Seq<ErrorView> {
    match find_column(df.columns@, spec.name@) {
        None => seq![missing_column_view(spec.name@)],
        Some(series) => declared_outcome(spec.name@, spec.dtype, spec.nullable, series@)
            + spec.checks@.map_values(
            |c: crate::checks::BuiltinCheck| crate::checks::builtin_outcome(c, spec.name@, series@),
        ).flatten(),
    }
}

/// The views of a flattened list of error lists are the flattened views.
pub proof fn lemma_errors_view_flatten(outs: Seq<Seq<ValidationError>>)
    ensures
        errors_view(outs.flatten()) == outs.map_values(|o: Seq<ValidationError>| errors_view(o)).flatten(),
    decreases outs.len(),
{
    if outs.len() > 0 {
        lemma_errors_view_flatten(outs.drop_first());
        assert(outs.map_values(|o: Seq<ValidationError>| errors_view(o)).drop_first()
            =~= outs.drop_first().map_values(|o: Seq<ValidationError>| errors_view(o)));
        assert(errors_view(outs.first() + outs.drop_first().flatten()) =~= errors_view(outs.first())
            + errors_view(outs.drop_first().flatten()));
    } else {
        assert(errors_view(outs.flatten()) =~= Seq::<ErrorView>::empty());
    }
}

/// With the built-in rules, validating a column spec against a frame has
/// exactly one result: the "ColumnExists" error when the column is missing,
/// otherwise the errors for the declared type and nullability followed by the
/// outcomes of the rules on the column, in order.
pub proof fn lemma_builtin_column_result(
    spec: ColumnSpec<crate::checks::BuiltinCheck>,
    df: DataFrame,
    out: Seq<ValidationError>,
)
    requires
        column_result(spec, df, out),
    ensures
        errors_view(out) == builtin_column_outcome(spec, df),
{
    match find_column(df.columns@, spec.name@) {
        None => {},
        Some(series) => {
            let (head, outs) = choose|head: Seq<ValidationError>, outs: Seq<Seq<ValidationError>>|
                {
                    &&& errors_view(head) == declared_outcome(
                        spec.name@,
                        spec.dtype,
                        spec.nullable,
                        series@,
                    )
                    &&& outs.len() == spec.checks@.len()
                    &&& forall|i: int|
                        0 <= i < outs.len() ==> check_ran(
                            spec.checks@[i],
                            spec.name@,
                            series,
                            #[trigger] outs[i],
                        )
                    &&& out == head + outs.flatten()
                };
            assert(errors_view(head + outs.flatten()) =~= errors_view(head) + errors_view(
                outs.flatten(),
            ));
            lemma_errors_view_flatten(outs);
            let views = outs.map_values(|o: Seq<ValidationError>| errors_view(o));
            let expected = spec.checks@.map_values(
                |c: crate::checks::BuiltinCheck|
                    crate::checks::builtin_outcome(c, spec.name@, series@),
            );
            assert forall|i: int| 0 <= i < views.len() implies views[i] == expected[i] by {
                lemma_builtin_check_ran(spec.checks@[i], spec.name@, series, outs[i]);
            }
            assert(views =~= expected);
        },
    }
}


/// What a column spec declares, checked against the column: a "DataType"
/// error exactly when the declared type is determined and differs from the
/// column's, naming both types; then a "Nullable" error exactly when nulls
/// are forbidden and some cell is null, listing exactly the null rows in
/// increasing order and counting them in its message; nothing else.
pub proof fn lemma_declared_law(name: Seq<char>, dtype: DType, nullable: bool, series: Series)
    ensures
        ({
            let cells = series@.cells;
            let len = cells.len();
            let out = declared_outcome(name, dtype, nullable, series@);
            let typed = !(dtype is Unknown) && series.dtype != dtype;
            let nulls = !nullable && exists|i: int| 0 <= i < len && #[trigger] cells[i] is Null;
            &&& out.len() == (if typed {
                1int
            } else {
                0int
            }) + (if nulls {
                1int
            } else {
                0int
            })
            &&& typed ==> {
                &&& out[0].column == name
                &&& out[0].check == "DataType"@
                &&& out[0].rows.len() == 0
                &&& out[0].message == "Column '"@ + name + "' has type "@ + dtype_name(series.dtype)
                    + " but "@ + dtype_name(dtype) + " was expected"@
            }
            &&& nulls ==> {
                let e = out[out.len() - 1];
                &&& e.column == name
                &&& e.check == "Nullable"@
                &&& forall|r: usize|
                    #[trigger] e.rows.contains(r) <==> (r < len && cells[r as int] is Null)
                &&& crate::checks::ascending_rows(e.rows, len)
                &&& e.message == "Found "@ + crate::text::decimal(e.rows.len())
                    + " null values in non-nullable column '"@ + name + "'"@
            }
        }),
{
    broadcast use vstd::std_specs::vec::axiom_spec_len;

    let cells = series@.cells;
    let len = cells.len();
    assert(series.values.len() == len);
    crate::frame::lemma_null_count_extremes(cells);
    crate::frame::lemma_null_rows_len(cells);
    crate::frame::lemma_rows_filter_facts(len, crate::frame::is_null_row(cells));
    let rows = null_rows(cells);
    assert forall|r: usize| #[trigger] rows.contains(r) implies r < len && cells[r as int] is Null by {
        let k = choose|k: int| 0 <= k < rows.len() && rows[k] == r;
        assert(rows[k] < len && crate::frame::is_null_row(cells)(rows[k]));
    }
    assert forall|r: usize| r < len && cells[r as int] is Null implies #[trigger] rows.contains(r) by {
        assert(crate::frame::is_null_row(cells)(r));
    }
}

/// Validating a column spec against a frame that has no column of its name
/// reports exactly one "ColumnExists" error, which names the column and
/// lists no row, whatever rules the spec holds.
pub proof fn lemma_missing_column_law<C: Check>(
    spec: ColumnSpec<C>,
    df: DataFrame,
    out: Seq<ValidationError>,
)
    requires
        column_result(spec, df, out),
        forall|i: int| 0 <= i < df.columns@.len() ==> (#[trigger] df.columns@[i]).name@ != spec.name@,
    ensures
        out.len() == 1,
        out[0]@.column == spec.name@,
        out[0]@.check == "ColumnExists"@,
        out[0]@.rows.len() == 0,
        out[0]@.message == "Column '"@ + spec.name@ + "' is missing from DataFrame"@,
{
    crate::frame::lemma_find_column_law(df.columns@, spec.name@);
    assert(errors_view(out).len() == out.len());
    assert(errors_view(out)[0] == out[0]@);
}
} // verus!

use vstd::prelude::*;

use crate::checks::Check;
use crate::column::{column_result, ColumnSpec};
use crate::errors::{ValidationError, ValidationReport};
use crate::frame::DataFrame;

verus! {

/// The expected columns of a frame.
pub struct Schema<C = Box<dyn Check>> {
    pub columns: Vec<ColumnSpec<C>>,
}

/// The concatenation, in order, of the per-column error lists.
pub open spec fn concat_errors(per_column: Seq<Vec<ValidationError>>) -> Seq<ValidationError> {
    per_column.map_values(|v: Vec<ValidationError>| v@).flatten()
}

/// `report` is a result of validating `df` against `schema`: the results of
/// the column specs, concatenated in the order of the columns.
pub open spec fn schema_result<C: Check>(
    schema: Schema<C>,
    df: DataFrame,
    report: ValidationReport,
) -> bool {
    exists|outs: Seq<Seq<ValidationError>>|
        {
            &&& outs.len() == schema.columns@.len()
            &&& forall|i: int|
                0 <= i < outs.len() ==> column_result(schema.columns@[i], df, #[trigger] outs[i])
            &&& report.errors@ == outs.flatten()
        }
}

/// A report holding every error of `per_column`, in order.
pub fn collect_report(per_column: Vec<Vec<ValidationError>>) -> (report: ValidationReport)
    ensures
        report.errors@ == concat_errors(per_column@),
{
    let ghost views = per_column@.map_values(|v: Vec<ValidationError>| v@);
    let mut per_column = per_column;
    let mut errors: Vec<ValidationError> = Vec::new();
    let mut rest: Vec<Vec<ValidationError>> = Vec::new();
    // Reverse first so that lists can be taken from the back in order.
    while per_column.len() > 0
        invariant
            views.len() == per_column@.len() + rest@.len(),
            forall|k: int|
                0 <= k < per_column@.len() ==> #[trigger] per_column@[k]@ == views[k],
            forall|k: int|
                0 <= k < rest@.len() ==> #[trigger] rest@[k]@ == views[views.len() - 1 - k],
        decreases per_column@.len(),
    {
        let v = per_column.pop().unwrap();
        rest.push(v);
    }
    let ghost n = views.len();
    proof {
        assert(views.take(0).flatten() =~= Seq::<ValidationError>::empty());
    }
    while rest.len() > 0
        invariant
            n == views.len(),
            rest@.len() <= n,
            forall|k: int|
                0 <= k < rest@.len() ==> #[trigger] rest@[k]@ == views[n - 1 - k],
            errors@ == views.take(n - rest@.len()).flatten(),
        decreases rest@.len(),
    {
        let ghost done = n - rest@.len();
        let mut v = rest.pop().unwrap();
        proof {
            assert(v@ == views[done]);
            assert(views.take(done + 1) =~= views.take(done).push(views[done]));
            views.take(done).lemma_flatten_push(views[done]);
        }
        errors.append(&mut v);
    }
    assert(views.take(n as int) =~= views);
    ValidationReport { errors }
}

impl<C: Check> Schema<C> {
    /// A schema expecting the given columns.
    pub fn new(columns: Vec<ColumnSpec<C>>) -> (s: Self)
        ensures
            s.columns == columns,
    {
        Schema { columns }
    }

    /// Validates every column spec against `df` and gathers all errors, in
    /// the order of the columns.
    pub fn validate(&self, df: &DataFrame) -> (report: ValidationReport)
        ensures
            schema_result(*self, *df, report),
    {
        let mut errors: Vec<ValidationError> = Vec::new();
        let ghost mut outs: Seq<Seq<ValidationError>> = seq![];
        let mut i: usize = 0;
        while i < self.columns.len()
            invariant
                i <= self.columns@.len(),
                outs.len() == i,
                forall|k: int|
                    0 <= k < i ==> column_result(self.columns@[k], *df, #[trigger] outs[k]),
                errors@ == outs.flatten(),
            decreases self.columns@.len() - i,
        {
            let mut found = self.columns[i].validate(df);
            proof {
                outs.lemma_flatten_push(found@);
                outs = outs.push(found@);
            }
            errors.append(&mut found);
            i = i + 1;
        }
        ValidationReport { errors }
    }
}

} // verus!

verus! {

/// The errors of validating `df` against column specs of built-in rules.
pub open spec fn builtin_schema_outcome(
    columns: Seq<ColumnSpec<crate::checks::BuiltinCheck>>,
    df: DataFrame,
) -> Seq<crate::errors::ErrorView> {
    columns.map_values(
        |c: ColumnSpec<crate::checks::BuiltinCheck>| crate::column::builtin_column_outcome(c, df),
    ).flatten()
}

/// With the built-in rules, validating a frame against a schema has exactly
/// one result: the errors of each column spec, in the order of the columns.
pub proof fn lemma_builtin_schema_result(
    schema: Schema<crate::checks::BuiltinCheck>,
    df: DataFrame,
    report: ValidationReport,
)
    requires
        schema_result(schema, df, report),
    ensures
        crate::errors::errors_view(report.errors@) == builtin_schema_outcome(
            schema.columns@,
            df,
        ),
{
    let outs = choose|outs: Seq<Seq<ValidationError>>|
        {
            &&& outs.len() == schema.columns@.len()
            &&& forall|i: int|
                0 <= i < outs.len() ==> column_result(schema.columns@[i], df, #[trigger] outs[i])
            &&& report.errors@ == outs.flatten()
        };
    crate::column::lemma_errors_view_flatten(outs);
    let views = outs.map_values(|o: Seq<ValidationError>| crate::errors::errors_view(o));
    let expected = schema.columns@.map_values(
        |c: ColumnSpec<crate::checks::BuiltinCheck>| crate::column::builtin_column_outcome(c, df),
    );
    assert forall|i: int| 0 <= i < views.len() implies views[i] == expected[i] by {
        crate::column::lemma_builtin_column_result(schema.columns@[i], df, outs[i]);
    }
    assert(views =~= expected);
}

/// A schema without columns finds no error in any frame.
pub proof fn lemma_empty_schema_valid<C: Check>(
    schema: Schema<C>,
    df: DataFrame,
    report: ValidationReport,
)
    requires
        schema.columns@.len() == 0,
        schema_result(schema, df, report),
    ensures
        report.errors@.len() == 0,
{
    let outs = choose|outs: Seq<Seq<ValidationError>>|
        {
            &&& outs.len() == schema.columns@.len()
            &&& forall|i: int|
                0 <= i < outs.len() ==> column_result(schema.columns@[i], df, #[trigger] outs[i])
            &&& report.errors@ == outs.flatten()
        };
    assert(outs.flatten() =~= Seq::<ValidationError>::empty());
}

/// With the built-in rules, validating against the columns of `a` followed
/// by those of `b` reports the errors of `a` followed by those of `b`.
pub proof fn lemma_schema_append(
    a: Schema<crate::checks::BuiltinCheck>,
    b: Schema<crate::checks::BuiltinCheck>,
    ab: Schema<crate::checks::BuiltinCheck>,
    df: DataFrame,
    ra: ValidationReport,
    rb: ValidationReport,
    rab: ValidationReport,
)
    requires
        ab.columns@ == a.columns@ + b.columns@,
        schema_result(a, df, ra),
        schema_result(b, df, rb),
        schema_result(ab, df, rab),
    ensures
        crate::errors::errors_view(rab.errors@) == crate::errors::errors_view(ra.errors@)
            + crate::errors::errors_view(rb.errors@),
{
    lemma_builtin_schema_result(a, df, ra);
    lemma_builtin_schema_result(b, df, rb);
    lemma_builtin_schema_result(ab, df, rab);
    let f = |c: ColumnSpec<crate::checks::BuiltinCheck>|
        crate::column::builtin_column_outcome(c, df);
    assert(ab.columns@.map_values(f) =~= a.columns@.map_values(f) + b.columns@.map_values(f));
    vstd::seq_lib::lemma_flatten_concat(a.columns@.map_values(f), b.columns@.map_values(f));
}

} // verus!

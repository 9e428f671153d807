use vstd::prelude::*;
use vstd::hash_set::StringHashSet;

use crate::checks::{
    regex_compiles, regex_finds_match, regex_is_match, BuiltinCheck, MatchesRegex, OneOfString,
};
use crate::column::{column_result, ColumnSpec};
use crate::errors::{ValidationError, ValidationReport};
use crate::schema::{schema_result, Schema};
use crate::frame::{
    distinct_count, null_count, spec_holds_strings, spec_is_numeric, Cell, DType, DataFrame, Series,
    SeriesView, Value,
};

verus! {

/// The pattern proposed for string columns holding UUIDs.
pub const UUID_PATTERN: &'static str =
    r"^[0-9a-fA-F]{8}-[0-9a-fA-F]{4}-[0-9a-fA-F]{4}-[0-9a-fA-F]{4}-[0-9a-fA-F]{12}$";

/// The pattern proposed for string columns holding e-mail addresses.
pub const EMAIL_PATTERN: &'static str = r"^[a-zA-Z0-9_.+-]+@[a-zA-Z0-9-]+\.[a-zA-Z0-9-.]+$";

/// The pattern proposed for string columns holding ISO-8601 dates, with an
/// optional time of day and offset.
pub const ISO_DATE_PATTERN: &'static str =
    r"^\d{4}-\d{2}-\d{2}([T ]\d{2}:\d{2}(:\d{2}(\.\d+)?)?(Z|[+-]\d{2}:?\d{2})?)?$";

/// The pattern proposed for string columns holding web addresses.
pub const URL_PATTERN: &'static str = r"^https?://[^\s/$.?#][^\s]*$";

/// A column with at most this many distinct values can be categorical.
pub const CATEGORY_LIMIT: usize = 20;

/// A column is categorical when its distinct values are at most one in this
/// many of its rows (and at most `CATEGORY_LIMIT`).
pub const CATEGORY_RATIO: usize = 20;

/// A rule proposed for a column by inspecting its data.
///
/// The numeric bounds carry no threshold: they stand for "greater than the
/// column's minimum minus 0.0001" and "less than its maximum plus 0.0001",
/// computed in floating point by the caller.
pub enum Suggestion {
    Check(BuiltinCheck),
    GreaterThanMin,
    LessThanMax,
}

/// The mathematical content of a [`Suggestion`].
pub enum SuggestionView {
    NotNull,
    UniqueValues,
    MatchesRegex(Seq<char>),
    OneOfString(Set<Seq<char>>),
    GreaterThanMin,
    LessThanMax,
}

impl View for Suggestion {
    type V = SuggestionView;

    open spec fn view(&self) -> SuggestionView {
        match self {
            Suggestion::Check(BuiltinCheck::NotNull) => SuggestionView::NotNull,
            Suggestion::Check(BuiltinCheck::UniqueValues) => SuggestionView::UniqueValues,
            Suggestion::Check(BuiltinCheck::MatchesRegex(m)) => SuggestionView::MatchesRegex(m@),
            Suggestion::Check(BuiltinCheck::OneOfString(o)) => SuggestionView::OneOfString(o@),
            Suggestion::GreaterThanMin => SuggestionView::GreaterThanMin,
            Suggestion::LessThanMax => SuggestionView::LessThanMax,
        }
    }
}

/// The column spec inferred from one column: its name, its type, whether it
/// holds nulls, and the proposed rules in order.
pub struct InferredColumn {
    pub name: String,
    pub dtype: DType,
    pub nullable: bool,
    pub checks: Vec<Suggestion>,
}

/// The mathematical content of an [`InferredColumn`].
pub struct InferredView {
    pub name: Seq<char>,
    pub dtype: DType,
    pub nullable: bool,
    pub checks: Seq<SuggestionView>,
}

impl View for InferredColumn {
    type V = InferredView;

    open spec fn view(&self) -> InferredView {
        InferredView {
            name: self.name@,
            dtype: self.dtype,
            nullable: self.nullable,
            checks: self.checks@.map_values(|c: Suggestion| c@),
        }
    }
}

/// Selects cells holding a string.
pub open spec fn is_str_cell() -> spec_fn(Cell) -> bool {
    |c: Cell| c is Str
}

/// The non-null strings of the column, in row order.
pub open spec fn non_null_strings(cells: Seq<Cell>) -> Seq<Seq<char>> {
    cells.filter(is_str_cell()).map_values(|c: Cell| c->Str_0)
}

/// Every string of `strs` is matched by the regular expression `pattern`.
pub open spec fn all_match(pattern: Seq<char>, strs: Seq<Seq<char>>) -> bool {
    forall|i: int| 0 <= i < strs.len() ==> regex_finds_match(pattern, #[trigger] strs[i])
}

/// A rule matching `pattern`, when the pattern compiles and matches each of
/// the (non-empty) strings `strs`.
pub open spec fn pattern_suggestion(pattern: Seq<char>, strs: Seq<Seq<char>>) -> Seq<
    SuggestionView,
> {
    if strs.len() > 0 && regex_compiles(pattern) && all_match(pattern, strs) {
        seq![SuggestionView::MatchesRegex(pattern)]
    } else {
        seq![]
    }
}

/// Few distinct values, both in number and relative to the number of rows.
pub open spec fn is_categorical(n_unique: nat, len: nat) -> bool {
    n_unique <= CATEGORY_LIMIT && CATEGORY_RATIO * n_unique <= len
}

/// The rules proposed for a string column with `n_unique` distinct values:
/// each known pattern that matches every non-null string, then the set of
/// its strings when it looks categorical.
pub open spec fn string_suggestions(cells: Seq<Cell>, n_unique: nat) -> Seq<SuggestionView> {
    let strs = non_null_strings(cells);
    pattern_suggestion(UUID_PATTERN@, strs) + pattern_suggestion(EMAIL_PATTERN@, strs)
        + pattern_suggestion(ISO_DATE_PATTERN@, strs) + pattern_suggestion(URL_PATTERN@, strs) + (
    if is_categorical(n_unique, cells.len()) {
        seq![SuggestionView::OneOfString(strs.to_set())]
    } else {
        seq![]
    })
}

/// The rules proposed for a column, in order: not-null when it has no null;
/// then, for a non-empty column, uniqueness when every value is distinct and
/// none is null, the two numeric bounds when it is numeric and holds a
/// value, and the string rules when it is a string column.
pub open spec fn inferred_checks(s: SeriesView) -> Seq<SuggestionView> {
    let len = s.cells.len();
    let nulls = null_count(s.cells);
    let n_unique = distinct_count(s.cells);
    let not_null = if nulls == 0 {
        seq![SuggestionView::NotNull]
    } else {
        seq![]
    };
    if len == 0 {
        not_null
    } else {
        not_null + (if n_unique == len && nulls == 0 {
            seq![SuggestionView::UniqueValues]
        } else {
            seq![]
        }) + (if spec_is_numeric(s.dtype) && nulls < len {
            seq![SuggestionView::GreaterThanMin, SuggestionView::LessThanMax]
        } else {
            seq![]
        }) + type_suggestions(s, n_unique)
    }
}

/// The rules proposed from the type of a non-empty column with `n_unique`
/// distinct values: the string rules for a string column, the set of its
/// categories for a categorical or enumerated column.
pub open spec fn type_suggestions(s: SeriesView, n_unique: nat) -> Seq<SuggestionView> {
    if s.dtype == DType::String {
        string_suggestions(s.cells, n_unique)
    } else if s.dtype == DType::Categorical || s.dtype == DType::Enum {
        seq![SuggestionView::OneOfString(non_null_strings(s.cells).to_set())]
    } else {
        seq![]
    }
}

/// The column spec inferred from `s`.
pub open spec fn inferred_view(s: SeriesView) -> InferredView {
    InferredView {
        name: s.name,
        dtype: s.dtype,
        nullable: null_count(s.cells) > 0,
        checks: inferred_checks(s),
    }
}

/// The non-null strings of the column, in row order.
fn string_values(series: &Series) -> (strs: Vec<&str>)
    ensures
        strs@.map_values(|s: &str| s@) == non_null_strings(series@.cells),
{
    let ghost cells = series@.cells;
    let mut strs: Vec<&str> = Vec::new();
    let mut i: usize = 0;
    proof {
        assert(cells.take(0) =~= Seq::<Cell>::empty());
        reveal_with_fuel(Seq::filter, 1);
        assert(strs@.map_values(|s: &str| s@) =~= non_null_strings(cells.take(0)));
    }
    while i < series.values.len()
        invariant
            cells == series@.cells,
            i <= cells.len(),
            strs@.map_values(|s: &str| s@) == non_null_strings(cells.take(i as int)),
        decreases cells.len() - i,
    {
        assert(cells[i as int] == series.values@[i as int]@);
        proof {
            assert(cells.take(i as int + 1) =~= cells.take(i as int).push(cells[i as int]));
            cells.take(i as int).lemma_filter_push(cells[i as int], is_str_cell());
        }
        let ghost before = strs@;
        if let Value::Str(s) = &series.values[i] {
            strs.push(s.as_str());
            proof {
                assert(strs@.map_values(|s: &str| s@) =~= before.map_values(|s: &str| s@).push(
                    cells[i as int]->Str_0,
                ));
            }
        }
        assert(strs@.map_values(|s: &str| s@) =~= non_null_strings(cells.take(i as int + 1)));
        i = i + 1;
    }
    assert(cells.take(i as int) =~= cells);
    strs
}

/// The set of the given strings.
fn string_set(strs: &Vec<&str>) -> (set: StringHashSet)
    ensures
        set@ == strs@.map_values(|s: &str| s@).to_set(),
{
    let ghost all = strs@.map_values(|s: &str| s@);
    let mut set = StringHashSet::new();
    let mut i: usize = 0;
    proof {
        assert(all.take(0).to_set() =~= Set::<Seq<char>>::empty());
    }
    while i < strs.len()
        invariant
            all == strs@.map_values(|s: &str| s@),
            i <= strs@.len(),
            set@ == all.take(i as int).to_set(),
        decreases strs@.len() - i,
    {
        proof {
            assert(all.take(i as int + 1) =~= all.take(i as int).push(all[i as int]));
            all.take(i as int).lemma_push_to_set_commute(all[i as int]);
        }
        set.insert(strs[i].to_owned());
        i = i + 1;
    }
    assert(all.take(i as int) =~= all);
    set
}

/// Whether a pattern is to be proposed, given its verdict on each non-null
/// string of a column: there is at least one string and every verdict is a
/// match.
pub fn pattern_applies(verdicts: &Vec<bool>) -> (b: bool)
    ensures
        b == (verdicts@.len() > 0 && forall|i: int| 0 <= i < verdicts@.len() ==> verdicts@[i]),
{
    if verdicts.len() == 0 {
        return false;
    }
    let mut j: usize = 0;
    while j < verdicts.len()
        invariant
            j <= verdicts@.len(),
            forall|k: int| 0 <= k < j ==> verdicts@[k],
        decreases verdicts@.len() - j,
    {
        if !verdicts[j] {
            return false;
        }
        j = j + 1;
    }
    true
}

/// The verdict of the rule `m` on each of the strings.
fn string_verdicts(m: &MatchesRegex, strs: &Vec<&str>) -> (verdicts: Vec<bool>)
    ensures
        verdicts@.len() == strs@.len(),
        forall|k: int|
            0 <= k < strs@.len() ==> verdicts@[k] == regex_finds_match(m@, #[trigger] strs@[k]@),
{
    let mut verdicts: Vec<bool> = Vec::new();
    let mut j: usize = 0;
    while j < strs.len()
        invariant
            j <= strs@.len(),
            verdicts@.len() == j,
            forall|k: int|
                0 <= k < j ==> verdicts@[k] == regex_finds_match(m@, #[trigger] strs@[k]@),
        decreases strs@.len() - j,
    {
        verdicts.push(regex_is_match(m, strs[j]));
        j = j + 1;
    }
    verdicts
}

/// Adds the rule matching `pattern` when the pattern compiles and matches
/// every string of `strs`.
fn push_pattern(checks: &mut Vec<Suggestion>, strs: &Vec<&str>, pattern: &str)
    ensures
        final(checks)@.map_values(|c: Suggestion| c@) == old(checks)@.map_values(
            |c: Suggestion| c@,
        ) + pattern_suggestion(pattern@, strs@.map_values(|s: &str| s@)),
{
    let ghost before = checks@.map_values(|c: Suggestion| c@);
    let ghost all = strs@.map_values(|s: &str| s@);
    match MatchesRegex::new(pattern) {
        Ok(m) => {
            let verdicts = string_verdicts(&m, strs);
            let applies = pattern_applies(&verdicts);
            proof {
                assert forall|k: int| 0 <= k < all.len() implies verdicts@[k] == regex_finds_match(
                    pattern@,
                    #[trigger] all[k],
                ) by {
                    assert(all[k] == strs@[k]@);
                }
                if !applies && strs@.len() > 0 {
                    let k = choose|k: int| 0 <= k < verdicts@.len() && !verdicts@[k];
                    assert(!regex_finds_match(pattern@, all[k]));
                }
            }
            if applies {
                checks.push(Suggestion::Check(BuiltinCheck::MatchesRegex(m)));
            }
            assert(checks@.map_values(|c: Suggestion| c@) =~= before + pattern_suggestion(
                pattern@,
                all,
            ));
        },
        Err(_) => {
            assert(checks@.map_values(|c: Suggestion| c@) =~= before + pattern_suggestion(
                pattern@,
                all,
            ));
        },
    }
}

/// The rules proposed for the string column `series`, which has `n_unique`
/// distinct values, appended to `checks`.
fn push_string_suggestions(checks: &mut Vec<Suggestion>, series: &Series, n_unique: usize)
    requires
        n_unique == distinct_count(series@.cells),
    ensures
        final(checks)@.map_values(|c: Suggestion| c@) == old(checks)@.map_values(
            |c: Suggestion| c@,
        ) + string_suggestions(series@.cells, n_unique as nat),
{
    let ghost before = checks@.map_values(|c: Suggestion| c@);
    let ghost cells = series@.cells;
    let ghost strs_view = non_null_strings(cells);
    let len = series.len();
    let strs = string_values(series);
    push_pattern(checks, &strs, UUID_PATTERN);
    push_pattern(checks, &strs, EMAIL_PATTERN);
    push_pattern(checks, &strs, ISO_DATE_PATTERN);
    push_pattern(checks, &strs, URL_PATTERN);
    let ghost patterns = checks@.map_values(|c: Suggestion| c@);
    if n_unique <= CATEGORY_LIMIT && CATEGORY_RATIO * n_unique <= len {
        let allowed = string_set(&strs);
        checks.push(
            Suggestion::Check(BuiltinCheck::OneOfString(OneOfString { allowed_values: allowed })),
        );
        assert(checks@.map_values(|c: Suggestion| c@) =~= patterns.push(
            SuggestionView::OneOfString(strs_view.to_set()),
        ));
    }
    assert(checks@.map_values(|c: Suggestion| c@) =~= before + string_suggestions(
        cells,
        n_unique as nat,
    ));
}

/// Infers a column spec from the data of one column.
pub fn infer_series_schema(series: &Series) -> (col: InferredColumn)
    ensures
        col@ == inferred_view(series@),
{
    let ghost s = series@;
    let name = series.name.clone();
    let dtype = series.dtype;
    let null_count = series.null_count();
    let nullable = null_count > 0;
    let mut checks: Vec<Suggestion> = Vec::new();
    if !nullable {
        checks.push(Suggestion::Check(BuiltinCheck::NotNull));
    }
    let ghost first = checks@.map_values(|c: Suggestion| c@);
    let len = series.len();
    if len > 0 {
        let n_unique = series.n_unique();
        if n_unique == len && null_count == 0 {
            checks.push(Suggestion::Check(BuiltinCheck::UniqueValues));
        }
        let ghost second = checks@.map_values(|c: Suggestion| c@);
        if dtype.is_numeric() && null_count < len {
            checks.push(Suggestion::GreaterThanMin);
            checks.push(Suggestion::LessThanMax);
        }
        let ghost third = checks@.map_values(|c: Suggestion| c@);
        if dtype == DType::String {
            push_string_suggestions(&mut checks, series, n_unique);
        } else if dtype == DType::Categorical || dtype == DType::Enum {
            let strs = string_values(series);
            let allowed = string_set(&strs);
            checks.push(
                Suggestion::Check(
                    BuiltinCheck::OneOfString(OneOfString { allowed_values: allowed }),
                ),
            );
        }
        proof {
            assert(second =~= first + (if n_unique == len && null_count == 0 {
                seq![SuggestionView::UniqueValues]
            } else {
                seq![]
            }));
            assert(third =~= second + (if spec_is_numeric(s.dtype) && null_count < len {
                seq![SuggestionView::GreaterThanMin, SuggestionView::LessThanMax]
            } else {
                seq![]
            }));
            assert(checks@.map_values(|c: Suggestion| c@) =~= third + type_suggestions(
                s,
                n_unique as nat,
            ));
            assert(checks@.map_values(|c: Suggestion| c@) =~= inferred_checks(s));
        }
    } else {
        assert(checks@.map_values(|c: Suggestion| c@) =~= inferred_checks(s));
    }
    InferredColumn { name, dtype, nullable, checks }
}

/// Infers a column spec for every column of `df`, in order.
pub fn infer_schema(df: &DataFrame) -> (cols: Vec<InferredColumn>)
    ensures
        cols@.len() == df.columns@.len(),
        forall|i: int| 0 <= i < cols@.len() ==> #[trigger] cols@[i]@ == inferred_view(df.columns@[i]@),
{
    let mut cols: Vec<InferredColumn> = Vec::new();
    let mut i: usize = 0;
    while i < df.columns.len()
        invariant
            i <= df.columns@.len(),
            cols@.len() == i,
            forall|k: int| 0 <= k < i ==> #[trigger] cols@[k]@ == inferred_view(df.columns@[k]@),
        decreases df.columns@.len() - i,
    {
        cols.push(infer_series_schema(&df.columns[i]));
        i = i + 1;
    }
    cols
}

} // verus!

verus! {

/// What each inferred rule promises about the column it came from.
pub open spec fn backed_by_data(s: SeriesView, v: SuggestionView) -> bool {
    match v {
        SuggestionView::NotNull => null_count(s.cells) == 0,
        SuggestionView::UniqueValues => distinct_count(s.cells) == s.cells.len() && null_count(
            s.cells,
        ) == 0,
        SuggestionView::OneOfString(allowed) => spec_holds_strings(s.dtype) && allowed
            == non_null_strings(s.cells).to_set(),
        SuggestionView::MatchesRegex(pattern) => s.dtype == DType::String && all_match(
            pattern,
            non_null_strings(s.cells),
        ),
        _ => true,
    }
}

proof fn lemma_inferred_checks_backed(s: SeriesView)
    ensures
        forall|k: int|
            0 <= k < inferred_checks(s).len() ==> backed_by_data(s, #[trigger] inferred_checks(s)[k]),
{
    let len = s.cells.len();
    let nulls = null_count(s.cells);
    let n_unique = distinct_count(s.cells);
    let a = if nulls == 0 {
        seq![SuggestionView::NotNull]
    } else {
        seq![]
    };
    let b = if n_unique == len && nulls == 0 {
        seq![SuggestionView::UniqueValues]
    } else {
        seq![]
    };
    let c = if spec_is_numeric(s.dtype) && nulls < len {
        seq![SuggestionView::GreaterThanMin, SuggestionView::LessThanMax]
    } else {
        seq![]
    };
    let d = type_suggestions(s, n_unique);
    assert forall|k: int| 0 <= k < d.len() implies backed_by_data(s, #[trigger] d[k]) by {
        if s.dtype == DType::String {
            let strs = non_null_strings(s.cells);
            let p1 = pattern_suggestion(UUID_PATTERN@, strs);
            let p2 = pattern_suggestion(EMAIL_PATTERN@, strs);
            let p3 = pattern_suggestion(ISO_DATE_PATTERN@, strs);
            let p4 = pattern_suggestion(URL_PATTERN@, strs);
            let p5 = if is_categorical(n_unique, len) {
                seq![SuggestionView::OneOfString(strs.to_set())]
            } else {
                seq![]
            };
            assert(d == p1 + p2 + p3 + p4 + p5);
            if k < p1.len() {
            } else if k < p1.len() + p2.len() {
            } else if k < p1.len() + p2.len() + p3.len() {
            } else if k < p1.len() + p2.len() + p3.len() + p4.len() {
            } else {
                assert(d[k] == p5[k - p1.len() - p2.len() - p3.len() - p4.len()]);
            }
        }
    }
    if len > 0 {
        let all = a + b + c + d;
        assert(inferred_checks(s) == all);
        assert forall|k: int| 0 <= k < all.len() implies backed_by_data(s, #[trigger] all[k]) by {
            if k < a.len() {
            } else if k < a.len() + b.len() {
            } else if k < a.len() + b.len() + c.len() {
            } else {
                assert(all[k] == d[k - a.len() - b.len() - c.len()]);
            }
        }
    }
}

/// A built-in rule whose promise holds on a column reports no error on it.
pub proof fn lemma_backed_rule_holds(c: BuiltinCheck, column: Seq<char>, series: Series)
    requires
        backed_by_data(series@, Suggestion::Check(c)@),
    ensures
        crate::checks::builtin_outcome(c, column, series@) == Seq::<crate::errors::ErrorView>::empty(),
{
    broadcast use vstd::std_specs::vec::axiom_spec_len;

    let cells = series@.cells;
    assert(series.values.len() == cells.len());
    match c {
        BuiltinCheck::UniqueValues => {
            cells.lemma_no_dup_set_cardinality();
            let rows = crate::frame::duplicated_rows(cells);
            crate::frame::lemma_rows_filter_facts(
                cells.len(),
                crate::frame::is_duplicated_row(cells),
            );
            if rows.len() > 0 {
                let r = rows[0];
                assert(crate::frame::is_duplicated_at(cells, r as int));
                let j = choose|j: int|
                    0 <= j < cells.len() && j != r as int && cells[j] == cells[r as int];
                assert(false);
            }
        },
        BuiltinCheck::OneOfString(o) => {
            let pred = crate::checks::is_disallowed_row(cells, o@);
            let rows = crate::frame::row_indices(cells.len()).filter(pred);
            crate::frame::lemma_rows_filter_facts(cells.len(), pred);
            if rows.len() > 0 {
                let r = rows[0];
                assert(cells[r as int] is Str);
                cells.lemma_filter_contains(is_str_cell(), r as int);
                let strs = cells.filter(is_str_cell());
                let k = choose|k: int| 0 <= k < strs.len() && strs[k] == cells[r as int];
                assert(non_null_strings(cells)[k] == cells[r as int]->Str_0);
                assert(non_null_strings(cells).to_set().contains(cells[r as int]->Str_0));
                assert(false);
            }
        },
        BuiltinCheck::MatchesRegex(m) => {
            let pred = crate::checks::is_unmatched_row(cells, m@);
            let rows = crate::frame::row_indices(cells.len()).filter(pred);
            crate::frame::lemma_rows_filter_facts(cells.len(), pred);
            if rows.len() > 0 {
                let r = rows[0];
                assert(cells[r as int] is Str);
                cells.lemma_filter_contains(is_str_cell(), r as int);
                let strs = cells.filter(is_str_cell());
                let k = choose|k: int| 0 <= k < strs.len() && strs[k] == cells[r as int];
                assert(non_null_strings(cells)[k] == cells[r as int]->Str_0);
                assert(regex_finds_match(m@, non_null_strings(cells)[k]));
                assert(false);
            }
        },
        BuiltinCheck::NotNull => {},
    }
}

/// Inference proposes only rules that the data it was inferred from obeys:
/// validating a column against any rule inferred from it (the numeric bounds
/// aside, which are computed in floating point) reports no error, under any
/// column name.
pub proof fn lemma_inferred_rules_hold(series: Series, column: Seq<char>, col: InferredColumn)
    requires
        col@ == inferred_view(series@),
    ensures
        forall|i: int|
            0 <= i < col.checks@.len() ==> match #[trigger] col.checks@[i] {
                Suggestion::Check(c) => crate::checks::builtin_outcome(c, column, series@)
                    == Seq::<crate::errors::ErrorView>::empty(),
                _ => true,
            },
{
    let s = series@;
    lemma_inferred_checks_backed(s);
    assert forall|i: int| 0 <= i < col.checks@.len() implies match #[trigger] col.checks@[i] {
        Suggestion::Check(c) => crate::checks::builtin_outcome(c, column, s)
            == Seq::<crate::errors::ErrorView>::empty(),
        _ => true,
    } by {
        assert(col@.checks[i] == col.checks@[i]@);
        assert(backed_by_data(s, inferred_checks(s)[i]));
        match col.checks@[i] {
            Suggestion::Check(c) => lemma_backed_rule_holds(c, column, series),
            _ => {},
        }
    }
}

/// Selects the proposed rules that are not numeric bounds.
pub open spec fn is_rule_view() -> spec_fn(SuggestionView) -> bool {
    |v: SuggestionView| !(v is GreaterThanMin) && !(v is LessThanMax)
}

/// `spec` is the column spec of built-in rules made from the inferred column
/// `iv`: same name, type and nullability, and the inferred rules other than
/// the numeric bounds, in order.
pub open spec fn spec_from_inferred(spec: ColumnSpec<BuiltinCheck>, iv: InferredView) -> bool {
    &&& spec.name@ == iv.name
    &&& spec.dtype == iv.dtype
    &&& spec.nullable == iv.nullable
    &&& spec.checks@.map_values(|c: BuiltinCheck| Suggestion::Check(c)@) == iv.checks.filter(
        is_rule_view(),
    )
}

impl InferredColumn {
    /// The column spec made of the inferred built-in rules, in order; the
    /// numeric bounds, which need floating point, are left out.
    pub fn into_spec(self) -> (spec: ColumnSpec<BuiltinCheck>)
        ensures
            spec_from_inferred(spec, self@),
    {
        let ghost all = self@.checks;
        let ghost n = all.len();
        let InferredColumn { name, dtype, nullable, checks } = self;
        let mut rest = checks;
        let mut rules: Vec<BuiltinCheck> = Vec::new();
        proof {
            assert(all.take(0) =~= Seq::<SuggestionView>::empty());
            reveal_with_fuel(Seq::filter, 1);
            assert(rest@.map_values(|c: Suggestion| c@) =~= all.skip(0));
        }
        while rest.len() > 0
            invariant
                n == all.len(),
                rest@.len() <= n,
                rest@.map_values(|c: Suggestion| c@) == all.skip(n - rest@.len()),
                rules@.map_values(|c: BuiltinCheck| Suggestion::Check(c)@) == all.take(
                    n - rest@.len(),
                ).filter(is_rule_view()),
            decreases rest@.len(),
        {
            let ghost k = n - rest@.len();
            let ghost before = rules@.map_values(|c: BuiltinCheck| Suggestion::Check(c)@);
            let ghost old_rest = rest@;
            let c = rest.remove(0);
            proof {
                assert(all.skip(k)[0] == c@);
                assert(all[k] == c@);
                assert(all.take(k + 1) =~= all.take(k).push(all[k]));
                all.take(k).lemma_filter_push(all[k], is_rule_view());
                assert forall|j: int| 0 <= j < rest@.len() implies rest@[j]@ == all.skip(k + 1)[j] by {
                    assert(rest@[j] == old_rest[j + 1]);
                    assert(old_rest.map_values(|c: Suggestion| c@)[j + 1] == all.skip(k)[j + 1]);
                }
                assert(rest@.map_values(|c: Suggestion| c@) =~= all.skip(k + 1));
            }
            match c {
                Suggestion::Check(rule) => {
                    rules.push(rule);
                    assert(rules@.map_values(|c: BuiltinCheck| Suggestion::Check(c)@) =~= before.push(
                        all[k],
                    ));
                },
                _ => {
                    assert(rules@.map_values(|c: BuiltinCheck| Suggestion::Check(c)@) =~= before);
                },
            }
        }
        assert(all.take(n as int) =~= all);
        ColumnSpec { name, dtype, nullable, checks: rules }
    }
}

/// The columns have pairwise distinct names (as in a Polars frame).
pub open spec fn distinct_names(columns: Seq<Series>) -> bool {
    forall|i: int, j: int|
        0 <= i < columns.len() && 0 <= j < columns.len() && i != j ==> #[trigger] columns[i].name@
            != #[trigger] columns[j].name@
}

proof fn lemma_find_distinct(columns: Seq<Series>, i: int)
    requires
        distinct_names(columns),
        0 <= i < columns.len(),
    ensures
        crate::frame::find_column(columns, columns[i].name@) == Some(columns[i]),
    decreases columns.len(),
{
    if i > 0 {
        assert(columns[0].name@ != columns[i].name@);
        let rest = columns.drop_first();
        assert forall|a: int, b: int|
            0 <= a < rest.len() && 0 <= b < rest.len() && a != b implies #[trigger] rest[a].name@
            != #[trigger] rest[b].name@ by {
            assert(rest[a] == columns[a + 1]);
            assert(rest[b] == columns[b + 1]);
        }
        assert(rest[i - 1] == columns[i]);
        lemma_find_distinct(rest, i - 1);
    }
}

proof fn lemma_flatten_all_empty<A>(outs: Seq<Seq<A>>)
    requires
        forall|i: int| 0 <= i < outs.len() ==> (#[trigger] outs[i]).len() == 0,
    ensures
        outs.flatten().len() == 0,
    decreases outs.len(),
{
    if outs.len() > 0 {
        assert(outs[0].len() == 0);
        assert forall|i: int| 0 <= i < outs.drop_first().len() implies (
        #[trigger] outs.drop_first()[i]).len() == 0 by {
            assert(outs.drop_first()[i] == outs[i + 1]);
        }
        lemma_flatten_all_empty(outs.drop_first());
    }
}

/// Validating a frame (with distinct column names) against the schema
/// inferred from it — the built-in rules of each column, without the numeric
/// bounds — finds no error.
pub proof fn lemma_inferred_schema_holds(
    df: DataFrame,
    schema: Schema<BuiltinCheck>,
    report: ValidationReport,
)
    requires
        distinct_names(df.columns@),
        schema.columns@.len() == df.columns@.len(),
        forall|i: int|
            0 <= i < schema.columns@.len() ==> spec_from_inferred(
                #[trigger] schema.columns@[i],
                inferred_view(df.columns@[i]@),
            ),
        schema_result(schema, df, report),
    ensures
        report.errors@.len() == 0,
{
    let outs = choose|outs: Seq<Seq<ValidationError>>|
        {
            &&& outs.len() == schema.columns@.len()
            &&& forall|i: int|
                0 <= i < outs.len() ==> column_result(schema.columns@[i], df, #[trigger] outs[i])
            &&& report.errors@ == outs.flatten()
        };
    assert forall|i: int| 0 <= i < outs.len() implies (#[trigger] outs[i]).len() == 0 by {
        let spec = schema.columns@[i];
        let series = df.columns@[i];
        let s = series@;
        lemma_find_distinct(df.columns@, i);
        assert(spec_from_inferred(spec, inferred_view(s)));
        crate::column::lemma_builtin_column_result(spec, df, outs[i]);
        let rules = spec.checks@.map_values(
            |c: BuiltinCheck| crate::checks::builtin_outcome(c, spec.name@, s),
        );
        lemma_inferred_checks_backed(s);
        assert forall|k: int| 0 <= k < rules.len() implies (#[trigger] rules[k]).len() == 0 by {
            let c = spec.checks@[k];
            let views = spec.checks@.map_values(|c: BuiltinCheck| Suggestion::Check(c)@);
            let inferred = inferred_checks(s);
            assert(views[k] == Suggestion::Check(c)@);
            assert(views == inferred.filter(is_rule_view()));
            assert(inferred.filter(is_rule_view())[k] == views[k]);
            assert(inferred.filter(is_rule_view()).contains(views[k]));
            inferred.lemma_filter_contains_rev(is_rule_view(), views[k]);
            let j = choose|j: int| 0 <= j < inferred.len() && inferred[j] == views[k];
            assert(backed_by_data(s, inferred[j]));
            lemma_backed_rule_holds(c, spec.name@, series);
        }
        lemma_flatten_all_empty(rules);
        assert(crate::column::declared_outcome(spec.name@, spec.dtype, spec.nullable, s)
            =~= Seq::<crate::errors::ErrorView>::empty());
        assert(crate::errors::errors_view(outs[i]).len() == outs[i].len());
    }
    lemma_flatten_all_empty(outs);
}

} // verus!

verus! {

/// A column has as many distinct cells as rows exactly when no two rows hold
/// equal cells.
proof fn lemma_distinct_count_full(cells: Seq<Cell>)
    ensures
        distinct_count(cells) == cells.len() <==> cells.no_duplicates(),
{
    if distinct_count(cells) == cells.len() {
        cells.lemma_no_dup_set_cardinality();
    }
    if cells.no_duplicates() {
        cells.unique_seq_to_set();
    }
}

/// The strings of a column, read through `non_null_strings`: a string is
/// among them exactly when some cell holds it; there is one exactly when
/// some cell is a string; a pattern matches all of them exactly when it
/// matches every string cell.
proof fn lemma_non_null_strings_cells(cells: Seq<Cell>, pattern: Seq<char>)
    ensures
        forall|x: Seq<char>|
            #[trigger] non_null_strings(cells).to_set().contains(x) <==> exists|i: int|
                0 <= i < cells.len() && #[trigger] cells[i] == Cell::Str(x),
        non_null_strings(cells).len() > 0 <==> exists|i: int|
            0 <= i < cells.len() && #[trigger] cells[i] is Str,
        all_match(pattern, non_null_strings(cells)) <==> forall|i: int|
            0 <= i < cells.len() && #[trigger] cells[i] is Str ==> regex_finds_match(
                pattern,
                cells[i]->Str_0,
            ),
{
    let strs = cells.filter(is_str_cell());
    let nns = non_null_strings(cells);
    assert(nns.len() == strs.len());
    assert forall|k: int| 0 <= k < strs.len() implies (#[trigger] strs[k] is Str) && exists|i: int|
        0 <= i < cells.len() && cells[i] == strs[k] by {
        cells.lemma_filter_pred(is_str_cell(), k);
        assert(strs.contains(strs[k]));
        cells.lemma_filter_contains_rev(is_str_cell(), strs[k]);
    }
    assert forall|i: int| 0 <= i < cells.len() && #[trigger] cells[i] is Str implies exists|k: int|
        0 <= k < strs.len() && strs[k] == cells[i] by {
        cells.lemma_filter_contains(is_str_cell(), i);
    }
    assert forall|x: Seq<char>| #[trigger] nns.to_set().contains(x) <==> exists|i: int|
        0 <= i < cells.len() && #[trigger] cells[i] == Cell::Str(x) by {
        if nns.to_set().contains(x) {
            let k = choose|k: int| 0 <= k < nns.len() && nns[k] == x;
            assert(strs[k] is Str);
            let i = choose|i: int| 0 <= i < cells.len() && cells[i] == strs[k];
            assert(cells[i] == Cell::Str(x));
        }
        if exists|i: int| 0 <= i < cells.len() && #[trigger] cells[i] == Cell::Str(x) {
            let i = choose|i: int| 0 <= i < cells.len() && #[trigger] cells[i] == Cell::Str(x);
            assert(cells[i] is Str);
            let k = choose|k: int| 0 <= k < strs.len() && strs[k] == cells[i];
            assert(nns[k] == x);
            assert(nns.contains(x));
        }
    }
    if nns.len() > 0 {
        assert(strs[0] is Str);
        let i = choose|i: int| 0 <= i < cells.len() && cells[i] == strs[0];
        assert(cells[i] is Str);
    }
    if exists|i: int| 0 <= i < cells.len() && #[trigger] cells[i] is Str {
        let i = choose|i: int| 0 <= i < cells.len() && #[trigger] cells[i] is Str;
        let k = choose|k: int| 0 <= k < strs.len() && strs[k] == cells[i];
    }
    if all_match(pattern, nns) {
        assert forall|i: int| 0 <= i < cells.len() && #[trigger] cells[i] is Str implies regex_finds_match(
            pattern,
            cells[i]->Str_0,
        ) by {
            let k = choose|k: int| 0 <= k < strs.len() && strs[k] == cells[i];
            assert(nns[k] == cells[i]->Str_0);
        }
    }
    if forall|i: int| 0 <= i < cells.len() && #[trigger] cells[i] is Str ==> regex_finds_match(
        pattern,
        cells[i]->Str_0,
    ) {
        assert forall|k: int| 0 <= k < nns.len() implies regex_finds_match(pattern, #[trigger] nns[k]) by {
            assert(strs[k] is Str);
            let i = choose|i: int| 0 <= i < cells.len() && cells[i] == strs[k];
            assert(cells[i] is Str);
        }
    }
}


/// The rules proposed from the type of a non-empty column, each against
/// the column: a pattern rule only for a string column with a string cell,
/// for one of the known patterns that compiles and matches every string
/// cell; a set rule only for a column holding strings, with exactly its
/// strings, for every categorical or enumerated column and for a string
/// column with few distinct values.
proof fn lemma_type_suggestions_contains(s: SeriesView, v: SuggestionView)
    ensures
        ({
            let d = type_suggestions(s, distinct_count(s.cells));
            let cells = s.cells;
            let strs = non_null_strings(cells);
            &&& !d.contains(SuggestionView::NotNull)
            &&& !d.contains(SuggestionView::UniqueValues)
            &&& !d.contains(SuggestionView::GreaterThanMin)
            &&& !d.contains(SuggestionView::LessThanMax)
            &&& v matches SuggestionView::MatchesRegex(p) ==> (d.contains(v) <==> {
                &&& s.dtype == DType::String
                &&& p == UUID_PATTERN@ || p == EMAIL_PATTERN@ || p == ISO_DATE_PATTERN@ || p
                    == URL_PATTERN@
                &&& strs.len() > 0
                &&& regex_compiles(p)
                &&& all_match(p, strs)
            })
            &&& v matches SuggestionView::OneOfString(allowed) ==> (d.contains(v) <==> {
                &&& allowed == strs.to_set()
                &&& (s.dtype == DType::Categorical || s.dtype == DType::Enum || (s.dtype
                    == DType::String && is_categorical(distinct_count(cells), cells.len())))
            })
        }),
{
    broadcast use vstd::seq_lib::lemma_seq_concat_contains_all_elements;

    let n = distinct_count(s.cells);
    let strs = non_null_strings(s.cells);
    let d = type_suggestions(s, n);
    let p1 = pattern_suggestion(UUID_PATTERN@, strs);
    let p2 = pattern_suggestion(EMAIL_PATTERN@, strs);
    let p3 = pattern_suggestion(ISO_DATE_PATTERN@, strs);
    let p4 = pattern_suggestion(URL_PATTERN@, strs);
    let one = seq![SuggestionView::OneOfString(strs.to_set())];
    let p5 = if is_categorical(n, s.cells.len()) {
        one
    } else {
        seq![]
    };
    assert forall|w: SuggestionView| #[trigger] one.contains(w) <==> w == SuggestionView::OneOfString(
        strs.to_set(),
    ) by {
        if w == SuggestionView::OneOfString(strs.to_set()) {
            assert(one[0] == w);
        }
    }
    assert forall|w: SuggestionView, q: Seq<char>| #[trigger] pattern_suggestion(q, strs).contains(
        w,
    ) <==> (w == SuggestionView::MatchesRegex(q) && strs.len() > 0 && regex_compiles(q)
        && all_match(q, strs)) by {
        let ps = pattern_suggestion(q, strs);
        if w == SuggestionView::MatchesRegex(q) && strs.len() > 0 && regex_compiles(q) && all_match(q, strs) {
            assert(ps[0] == w);
        }
    }
    assert(Seq::<SuggestionView>::empty().contains(v) == false);
    if s.dtype == DType::String {
        assert(d == p1 + p2 + p3 + p4 + p5);
    }
}

/// What inference proposes for a column, stated against the column's cells:
/// the inferred spec keeps the column's name and type and is nullable
/// exactly when a cell is null; it proposes not-null exactly when no cell
/// is null; uniqueness exactly when the column is non-empty, has no null
/// and no two rows hold equal cells; the two numeric bounds exactly when
/// the type is numeric (integer, float or decimal) and some cell is not
/// null; a pattern rule exactly for each known pattern that compiles and
/// matches every string cell of a string column that has one; and a set
/// rule, listing exactly the strings the column holds, exactly for a
/// non-empty categorical or enumerated column, or a non-empty string column
/// with at most `CATEGORY_LIMIT` distinct cells, at most one per
/// `CATEGORY_RATIO` rows.
pub proof fn lemma_inference_law(series: Series, col: InferredColumn)
    requires
        col@ == inferred_view(series@),
    ensures
        ({
            let cells = series@.cells;
            let len = cells.len();
            let checks = col@.checks;
            &&& col.name@ == series.name@
            &&& col.dtype == series.dtype
            &&& col.nullable <==> exists|i: int| 0 <= i < len && #[trigger] cells[i] is Null
            &&& checks.contains(SuggestionView::NotNull) <==> forall|i: int|
                0 <= i < len ==> !(#[trigger] cells[i] is Null)
            &&& checks.contains(SuggestionView::UniqueValues) <==> {
                &&& len > 0
                &&& forall|i: int| 0 <= i < len ==> !(#[trigger] cells[i] is Null)
                &&& forall|i: int, j: int|
                    0 <= i < len && 0 <= j < len && i != j ==> #[trigger] cells[i]
                        != #[trigger] cells[j]
            }
            &&& checks.contains(SuggestionView::GreaterThanMin) <==> {
                &&& spec_is_numeric(series.dtype)
                &&& exists|i: int| 0 <= i < len && !(#[trigger] cells[i] is Null)
            }
            &&& checks.contains(SuggestionView::LessThanMax) <==> {
                &&& spec_is_numeric(series.dtype)
                &&& exists|i: int| 0 <= i < len && !(#[trigger] cells[i] is Null)
            }
            &&& forall|p: Seq<char>|
                #[trigger] checks.contains(SuggestionView::MatchesRegex(p)) <==> {
                    &&& series.dtype == DType::String
                    &&& p == UUID_PATTERN@ || p == EMAIL_PATTERN@ || p == ISO_DATE_PATTERN@ || p
                        == URL_PATTERN@
                    &&& regex_compiles(p)
                    &&& exists|i: int| 0 <= i < len && #[trigger] cells[i] is Str
                    &&& forall|i: int|
                        0 <= i < len && #[trigger] cells[i] is Str ==> regex_finds_match(
                            p,
                            cells[i]->Str_0,
                        )
                }
            &&& forall|allowed: Set<Seq<char>>|
                #[trigger] checks.contains(SuggestionView::OneOfString(allowed)) <==> {
                    &&& len > 0
                    &&& (series.dtype == DType::Categorical || series.dtype == DType::Enum || (
                    series.dtype == DType::String && cells.to_set().len() <= CATEGORY_LIMIT
                        && CATEGORY_RATIO * cells.to_set().len() <= len))
                    &&& forall|x: Seq<char>|
                        #[trigger] allowed.contains(x) <==> exists|i: int|
                            0 <= i < len && #[trigger] cells[i] == Cell::Str(x)
                }
        }),
{
    broadcast use vstd::seq_lib::lemma_seq_concat_contains_all_elements;

    let s = series@;
    let cells = s.cells;
    let len = cells.len();
    let nulls = null_count(cells);
    let n = distinct_count(cells);
    let strs = non_null_strings(cells);
    let checks = col@.checks;
    crate::frame::lemma_null_count_extremes(cells);
    lemma_distinct_count_full(cells);
    let a = if nulls == 0 {
        seq![SuggestionView::NotNull]
    } else {
        seq![]
    };
    let b = if n == len && nulls == 0 {
        seq![SuggestionView::UniqueValues]
    } else {
        seq![]
    };
    let c = if spec_is_numeric(s.dtype) && nulls < len {
        seq![SuggestionView::GreaterThanMin, SuggestionView::LessThanMax]
    } else {
        seq![]
    };
    let d = type_suggestions(s, n);
    assert(checks == inferred_checks(s));
    assert forall|w: SuggestionView| #[trigger] a.contains(w) <==> (nulls == 0 && w
        == SuggestionView::NotNull) by {
        if nulls == 0 && w == SuggestionView::NotNull {
            assert(a[0] == w);
        }
    }
    assert forall|w: SuggestionView| #[trigger] b.contains(w) <==> (n == len && nulls == 0 && w
        == SuggestionView::UniqueValues) by {
        if n == len && nulls == 0 && w == SuggestionView::UniqueValues {
            assert(b[0] == w);
        }
    }
    assert forall|w: SuggestionView| #[trigger] c.contains(w) <==> (spec_is_numeric(s.dtype)
        && nulls < len && (w == SuggestionView::GreaterThanMin || w
        == SuggestionView::LessThanMax)) by {
        if spec_is_numeric(s.dtype) && nulls < len {
            if w == SuggestionView::GreaterThanMin {
                assert(c[0] == w);
            }
            if w == SuggestionView::LessThanMax {
                assert(c[1] == w);
            }
        }
    }
    assert forall|w: SuggestionView| #[trigger] checks.contains(w) <==> (a.contains(w) || (len > 0
        && (b.contains(w) || c.contains(w) || d.contains(w)))) by {
        if len > 0 {
            assert(checks == a + b + c + d);
        } else {
            assert(checks == a);
        }
    }
    lemma_type_suggestions_contains(s, SuggestionView::NotNull);
    if nulls < len {
        assert(nulls != len);
    }
    if exists|i: int| 0 <= i < len && !(#[trigger] cells[i] is Null) {
        assert(nulls != len);
    }
    assert forall|p: Seq<char>| #[trigger] checks.contains(SuggestionView::MatchesRegex(p)) <==> {
        &&& s.dtype == DType::String
        &&& p == UUID_PATTERN@ || p == EMAIL_PATTERN@ || p == ISO_DATE_PATTERN@ || p == URL_PATTERN@
        &&& regex_compiles(p)
        &&& exists|i: int| 0 <= i < len && #[trigger] cells[i] is Str
        &&& forall|i: int|
            0 <= i < len && #[trigger] cells[i] is Str ==> regex_finds_match(p, cells[i]->Str_0)
    } by {
        lemma_type_suggestions_contains(s, SuggestionView::MatchesRegex(p));
        lemma_non_null_strings_cells(cells, p);
    }
    assert forall|allowed: Set<Seq<char>>| #[trigger] checks.contains(
        SuggestionView::OneOfString(allowed),
    ) <==> {
        &&& len > 0
        &&& (s.dtype == DType::Categorical || s.dtype == DType::Enum || (s.dtype == DType::String
            && cells.to_set().len() <= CATEGORY_LIMIT && CATEGORY_RATIO * cells.to_set().len()
            <= len))
        &&& forall|x: Seq<char>|
            #[trigger] allowed.contains(x) <==> exists|i: int|
                0 <= i < len && #[trigger] cells[i] == Cell::Str(x)
    } by {
        lemma_type_suggestions_contains(s, SuggestionView::OneOfString(allowed));
        lemma_non_null_strings_cells(cells, Seq::empty());
        if forall|x: Seq<char>|
            #[trigger] allowed.contains(x) <==> exists|i: int|
                0 <= i < len && #[trigger] cells[i] == Cell::Str(x) {
            assert(allowed =~= strs.to_set());
        }
    }
}

/// The four known patterns are distinct.
proof fn lemma_patterns_distinct()
    ensures
        UUID_PATTERN@ != EMAIL_PATTERN@,
        UUID_PATTERN@ != ISO_DATE_PATTERN@,
        UUID_PATTERN@ != URL_PATTERN@,
        EMAIL_PATTERN@ != ISO_DATE_PATTERN@,
        EMAIL_PATTERN@ != URL_PATTERN@,
        ISO_DATE_PATTERN@ != URL_PATTERN@,
{
    reveal_strlit(
        r"^[0-9a-fA-F]{8}-[0-9a-fA-F]{4}-[0-9a-fA-F]{4}-[0-9a-fA-F]{4}-[0-9a-fA-F]{12}$",
    );
    reveal_strlit(r"^[a-zA-Z0-9_.+-]+@[a-zA-Z0-9-]+\.[a-zA-Z0-9-.]+$");
    reveal_strlit(r"^\d{4}-\d{2}-\d{2}([T ]\d{2}:\d{2}(:\d{2}(\.\d+)?)?(Z|[+-]\d{2}:?\d{2})?)?$");
    reveal_strlit(r"^https?://[^\s/$.?#][^\s]*$");
    assert(UUID_PATTERN@[2] != EMAIL_PATTERN@[2]);
    assert(UUID_PATTERN@[1] != ISO_DATE_PATTERN@[1]);
    assert(UUID_PATTERN@[1] != URL_PATTERN@[1]);
    assert(EMAIL_PATTERN@[1] != ISO_DATE_PATTERN@[1]);
    assert(EMAIL_PATTERN@[1] != URL_PATTERN@[1]);
    assert(ISO_DATE_PATTERN@[1] != URL_PATTERN@[1]);
}

/// The place of a proposed rule in the order inference proposes them:
/// not-null, uniqueness, lower bound, upper bound, the pattern rules for
/// UUIDs, e-mail addresses, ISO dates and web addresses, then the set rule.
pub open spec fn suggestion_rank(v: SuggestionView) -> int {
    match v {
        SuggestionView::NotNull => 0,
        SuggestionView::UniqueValues => 1,
        SuggestionView::GreaterThanMin => 2,
        SuggestionView::LessThanMax => 3,
        SuggestionView::MatchesRegex(p) => if p == UUID_PATTERN@ {
            4
        } else if p == EMAIL_PATTERN@ {
            5
        } else if p == ISO_DATE_PATTERN@ {
            6
        } else if p == URL_PATTERN@ {
            7
        } else {
            8
        },
        SuggestionView::OneOfString(_) => 9,
    }
}

/// The rules are in strictly increasing place: in that order, and each kind
/// (each pattern) at most once.
pub open spec fn ranked_in_order(checks: Seq<SuggestionView>) -> bool {
    forall|i: int, j: int|
        0 <= i < j < checks.len() ==> suggestion_rank(#[trigger] checks[i]) < suggestion_rank(
            #[trigger] checks[j],
        )
}

/// Every rule of `checks` has a place in `lo..=hi`.
spec fn ranks_within(checks: Seq<SuggestionView>, lo: int, hi: int) -> bool {
    forall|i: int| 0 <= i < checks.len() ==> lo <= #[trigger] suggestion_rank(checks[i]) <= hi
}

proof fn lemma_concat_ranked(x: Seq<SuggestionView>, y: Seq<SuggestionView>, lo: int, mid: int, hi: int)
    requires
        lo <= mid < hi,
        ranked_in_order(x),
        ranked_in_order(y),
        ranks_within(x, lo, mid),
        ranks_within(y, mid + 1, hi),
    ensures
        ranked_in_order(x + y),
        ranks_within(x + y, lo, hi),
{
    let z = x + y;
    assert forall|i: int, j: int| 0 <= i < j < z.len() implies suggestion_rank(#[trigger] z[i])
        < suggestion_rank(#[trigger] z[j]) by {
        if j < x.len() {
            assert(z[i] == x[i] && z[j] == x[j]);
        } else if i < x.len() {
            assert(z[i] == x[i] && z[j] == y[j - x.len()]);
            assert(suggestion_rank(x[i]) <= mid);
            assert(suggestion_rank(y[j - x.len()]) >= mid + 1);
        } else {
            assert(z[i] == y[i - x.len()] && z[j] == y[j - x.len()]);
        }
    }
    assert forall|i: int| 0 <= i < z.len() implies lo <= #[trigger] suggestion_rank(z[i]) <= hi by {
        if i < x.len() {
            assert(z[i] == x[i]);
        } else {
            assert(z[i] == y[i - x.len()]);
        }
    }
}

/// Inference proposes its rules in a fixed order, each kind at most once:
/// not-null, uniqueness, the lower and the upper bound, the pattern rules
/// (UUID, e-mail, ISO date, web address), then the set rule.
pub proof fn lemma_inference_order(series: Series, col: InferredColumn)
    requires
        col@ == inferred_view(series@),
    ensures
        ranked_in_order(col@.checks),
{
    let s = series@;
    let len = s.cells.len();
    let nulls = null_count(s.cells);
    let n = distinct_count(s.cells);
    let strs = non_null_strings(s.cells);
    let a = if nulls == 0 {
        seq![SuggestionView::NotNull]
    } else {
        seq![]
    };
    let b = if n == len && nulls == 0 {
        seq![SuggestionView::UniqueValues]
    } else {
        seq![]
    };
    let c = if spec_is_numeric(s.dtype) && nulls < len {
        seq![SuggestionView::GreaterThanMin, SuggestionView::LessThanMax]
    } else {
        seq![]
    };
    let d = type_suggestions(s, n);
    lemma_patterns_distinct();
    assert(ranked_in_order(a) && ranks_within(a, 0, 0));
    assert(ranked_in_order(b) && ranks_within(b, 1, 1));
    assert(ranked_in_order(c) && ranks_within(c, 2, 3));
    let one = seq![SuggestionView::OneOfString(strs.to_set())];
    assert(ranked_in_order(one) && ranks_within(one, 9, 9));
    if s.dtype == DType::String {
        let p1 = pattern_suggestion(UUID_PATTERN@, strs);
        let p2 = pattern_suggestion(EMAIL_PATTERN@, strs);
        let p3 = pattern_suggestion(ISO_DATE_PATTERN@, strs);
        let p4 = pattern_suggestion(URL_PATTERN@, strs);
        let p5 = if is_categorical(n, len) {
            one
        } else {
            seq![]
        };
        assert(ranked_in_order(p1) && ranks_within(p1, 4, 4));
        assert(ranked_in_order(p2) && ranks_within(p2, 5, 5));
        assert(ranked_in_order(p3) && ranks_within(p3, 6, 6));
        assert(ranked_in_order(p4) && ranks_within(p4, 7, 7));
        assert(ranked_in_order(p5) && ranks_within(p5, 8, 9));
        lemma_concat_ranked(p1, p2, 4, 4, 5);
        lemma_concat_ranked(p1 + p2, p3, 4, 5, 6);
        lemma_concat_ranked(p1 + p2 + p3, p4, 4, 6, 7);
        lemma_concat_ranked(p1 + p2 + p3 + p4, p5, 4, 7, 9);
        assert(d == p1 + p2 + p3 + p4 + p5);
    } else if s.dtype == DType::Categorical || s.dtype == DType::Enum {
        assert(d == one);
    } else {
        assert(d == Seq::<SuggestionView>::empty());
    }
    assert(ranked_in_order(d) && ranks_within(d, 4, 9));
    assert(col@.checks == inferred_checks(s));
    if len > 0 {
        lemma_concat_ranked(a, b, 0, 0, 1);
        lemma_concat_ranked(a + b, c, 0, 1, 3);
        lemma_concat_ranked(a + b + c, d, 0, 3, 9);
        assert(inferred_checks(s) == a + b + c + d);
    } else {
        assert(inferred_checks(s) == a);
    }
}
} // verus!

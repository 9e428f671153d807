use vstd::prelude::*;
use vstd::hash_set::StringHashSet;
use vstd::string::*;

use regex::Regex;

use crate::errors::{error_view, errors_view, ErrorView, ValidationError};
use crate::frame::{
    duplicated_rows, is_duplicated_row, is_null_row, lemma_null_rows_len, lemma_rows_filter_ext,
    lemma_rows_filter_facts,
    lemma_rows_filter_step, null_count, null_rows, row_indices, spec_holds_strings, Cell, DType,
    Series, SeriesView,
    Value,
};

verus! {

/// A rule that a column must obey.
///
/// `validate` returns the failures of the rule on `series`, reported under
/// `column_name`.
pub trait Check: Send + Sync {
    fn name(&self) -> &str;

    fn validate(&self, column_name: &str, series: &Series) -> Vec<ValidationError>;
}

// ---------------------------------------------------------------------------
// Outcomes of the built-in rules
// ---------------------------------------------------------------------------

/// No error when `rows` is empty, otherwise the single error listing them.
pub open spec fn failures(
    column: Seq<char>,
    check: Seq<char>,
    rows: Seq<usize>,
    message: Seq<char>,
) -> Seq<ErrorView> {
    if rows.len() == 0 {
        seq![]
    } else {
        seq![error_view(column, check, rows, message)]
    }
}

/// The rows (ascending) whose mask entry is `Some(true)`.
pub open spec fn true_rows(mask: Seq<Option<bool>>) -> Seq<usize> {
    row_indices(mask.len()).filter(is_true_row(mask))
}

/// Selects the rows whose mask entry is `Some(true)`.
pub open spec fn is_true_row(mask: Seq<Option<bool>>) -> spec_fn(usize) -> bool {
    |i: usize| mask[i as int] == Some(true)
}

/// The error reported when a column cannot be read as the type a rule needs.
pub open spec fn type_mismatch_view(
    column: Seq<char>,
    check: Seq<char>,
    expected_type: Seq<char>,
) -> ErrorView {
    error_view(
        column,
        check,
        seq![],
        "Failed to dynamically cast column to "@ + expected_type,
    )
}

pub open spec fn not_null_message(count: nat, column: Seq<char>) -> Seq<char> {
    "Found "@ + crate::text::decimal(count) + " null values in '"@ + column + "'"@
}

/// `NotNull` on `s`: one error listing the null rows if there is any.
pub open spec fn not_null_outcome(column: Seq<char>, s: SeriesView) -> Seq<ErrorView> {
    if null_count(s.cells) > 0 {
        seq![
            error_view(
                column,
                "NotNull"@,
                null_rows(s.cells),
                not_null_message(null_count(s.cells), column),
            ),
        ]
    } else {
        seq![]
    }
}

pub open spec fn unique_message(column: Seq<char>) -> Seq<char> {
    "Found duplicated values in '"@ + column + "'"@
}

/// `UniqueValues` on `s`: one error listing every row whose value occurs
/// more than once, if there is any.
pub open spec fn unique_outcome(column: Seq<char>, s: SeriesView) -> Seq<ErrorView> {
    failures(column, "UniqueValues"@, duplicated_rows(s.cells), unique_message(column))
}

/// Selects the rows holding a string that the pattern does not match.
pub open spec fn is_unmatched_row(cells: Seq<Cell>, pattern: Seq<char>) -> spec_fn(usize) -> bool {
    |i: usize| cells[i as int] is Str && !regex_finds_match(pattern, cells[i as int]->Str_0)
}

pub open spec fn regex_message(column: Seq<char>, pattern: Seq<char>) -> Seq<char> {
    "Values in '"@ + column + "' do not match pattern '"@ + pattern + "'"@
}

/// `MatchesRegex` on `s`: a type error for a non-string column, otherwise
/// one error listing the non-null rows the pattern does not match, if any.
pub open spec fn regex_outcome(column: Seq<char>, pattern: Seq<char>, s: SeriesView) -> Seq<
    ErrorView,
> {
    if s.dtype != DType::String {
        seq![type_mismatch_view(column, "MatchesRegex"@, "String"@)]
    } else {
        failures(
            column,
            "MatchesRegex"@,
            row_indices(s.cells.len()).filter(is_unmatched_row(s.cells, pattern)),
            regex_message(column, pattern),
        )
    }
}

/// Selects the rows holding a string outside the allowed set.
pub open spec fn is_disallowed_row(cells: Seq<Cell>, allowed: Set<Seq<char>>) -> spec_fn(
    usize,
) -> bool {
    |i: usize| cells[i as int] is Str && !allowed.contains(cells[i as int]->Str_0)
}

pub open spec fn one_of_message(column: Seq<char>) -> Seq<char> {
    "Values in '"@ + column + "' are not part of the allowed set"@
}

/// `OneOfString` on `s`: a type error for a column holding neither strings
/// nor categories, otherwise one error listing the non-null rows outside the
/// allowed set, if any.
pub open spec fn one_of_outcome(column: Seq<char>, allowed: Set<Seq<char>>, s: SeriesView) -> Seq<
    ErrorView,
> {
    if !spec_holds_strings(s.dtype) {
        seq![type_mismatch_view(column, "OneOfString"@, "String"@)]
    } else {
        failures(
            column,
            "OneOfString"@,
            row_indices(s.cells.len()).filter(is_disallowed_row(s.cells, allowed)),
            one_of_message(column),
        )
    }
}

// ---------------------------------------------------------------------------
// Shared helpers
// ---------------------------------------------------------------------------

/// The rows (ascending) at which `mask` holds `Some(true)`; null entries
/// count as not set.
pub fn get_true_indices(mask: &Vec<Option<bool>>) -> (rows: Vec<usize>)
    ensures
        rows@ == true_rows(mask@),
        forall|r: usize| #[trigger] rows@.contains(r) <==> (r < mask@.len() && mask@[r as int] == Some(true)),
        ascending_rows(rows@, mask@.len()),
{
    let ghost pred = is_true_row(mask@);
    let mut rows: Vec<usize> = Vec::new();
    let mut i: usize = 0;
    proof {
        assert(row_indices(0) =~= Seq::<usize>::empty());
        reveal_with_fuel(Seq::filter, 1);
    }
    while i < mask.len()
        invariant
            pred == is_true_row(mask@),
            i <= mask@.len(),
            rows@ == row_indices(i as nat).filter(pred),
        decreases mask@.len() - i,
    {
        proof {
            lemma_rows_filter_step(i as nat, pred);
        }
        if let Some(true) = mask[i] {
            rows.push(i);
        }
        i = i + 1;
    }
    proof {
        lemma_rows_filter_facts(mask@.len(), pred);
        assert forall|r: usize| #[trigger] rows@.contains(r) implies r < mask@.len() && mask@[r as int]
            == Some(true) by {
            let k = choose|k: int| 0 <= k < rows@.len() && rows@[k] == r;
            assert(rows@[k] < mask@.len() && pred(rows@[k]));
        }
        assert forall|r: usize| r < mask@.len() && mask@[r as int] == Some(true) implies #[trigger] rows@.contains(r) by {
            assert(pred(r));
        }
    }
    rows
}

/// An owned copy of a string slice.
fn owned(s: &str) -> (r: String)
    ensures
        r@ == s@,
{
    s.to_owned()
}

/// The error for a column that cannot be read as `expected_type`.
pub fn type_mismatch_error(column: &str, check: &str, expected_type: &str) -> (e: ValidationError)
    ensures
        e@ == type_mismatch_view(column@, check@, expected_type@),
{
    let mut message = String::from_str("Failed to dynamically cast column to ");
    message.append(expected_type);
    ValidationError { column: owned(column), check: owned(check), rows: Vec::new(), message }
}

/// The failures of a rule whose per-row verdict is `mask` (`Some(true)`
/// marks a failing row): none when no row fails, otherwise one error with
/// the failing rows and `message`.
pub fn mask_failures(
    column_name: &str,
    check: &str,
    mask: &Vec<Option<bool>>,
    message: String,
) -> (errors: Vec<ValidationError>)
    ensures
        errors_view(errors@) == failures(column_name@, check@, true_rows(mask@), message@),
{
    let rows = get_true_indices(mask);
    rows_failures(column_name, check, rows, message)
}

/// No error when `rows` is empty, otherwise the single error listing them.
fn rows_failures(column_name: &str, check: &str, rows: Vec<usize>, message: String) -> (errors: Vec<
    ValidationError,
>)
    ensures
        errors_view(errors@) == failures(column_name@, check@, rows@, message@),
{
    let mut errors: Vec<ValidationError> = Vec::new();
    if rows.len() > 0 {
        errors.push(
            ValidationError { column: owned(column_name), check: owned(check), rows, message },
        );
    }
    proof {
        assert(errors_view(errors@) =~= failures(column_name@, check@, rows@, message@));
    }
    errors
}

// ---------------------------------------------------------------------------
// NotNull
// ---------------------------------------------------------------------------

/// Checks that no value of the column is null.
pub struct NotNull;

impl Check for NotNull {
    fn name(&self) -> (n: &str)
        ensures
            n@ == "NotNull"@,
    {
        "NotNull"
    }

    fn validate(&self, column_name: &str, series: &Series) -> (errors: Vec<ValidationError>)
        ensures
            errors_view(errors@) == not_null_outcome(column_name@, series@),
    {
        let mut errors: Vec<ValidationError> = Vec::new();
        let count = series.null_count();
        if count > 0 {
            let rows = series.null_rows();
            let mut message = String::from_str("Found ");
            message.append(crate::text::decimal_string(count).as_str());
            message.append(" null values in '");
            message.append(column_name);
            message.append("'");
            errors.push(
                ValidationError {
                    column: owned(column_name),
                    check: owned(self.name()),
                    rows,
                    message,
                },
            );
        }
        proof {
            assert(errors_view(errors@) =~= not_null_outcome(column_name@, series@));
        }
        errors
    }
}

// ---------------------------------------------------------------------------
// UniqueValues
// ---------------------------------------------------------------------------

/// Checks that no value occurs twice in the column (two nulls count as a
/// repeated value).
pub struct UniqueValues;

impl Check for UniqueValues {
    fn name(&self) -> (n: &str)
        ensures
            n@ == "UniqueValues"@,
    {
        "UniqueValues"
    }

    fn validate(&self, column_name: &str, series: &Series) -> (errors: Vec<ValidationError>)
        ensures
            errors_view(errors@) == unique_outcome(column_name@, series@),
    {
        let rows = series.duplicated_rows();
        let mut message = String::from_str("Found duplicated values in '");
        message.append(column_name);
        message.append("'");
        rows_failures(column_name, self.name(), rows, message)
    }
}

// ---------------------------------------------------------------------------
// MatchesRegex
// ---------------------------------------------------------------------------

/// Whether the regular expression `pattern` is accepted by the `regex`
/// crate (valid syntax, within the default size limit).
pub uninterp spec fn regex_compiles(pattern: Seq<char>) -> bool;

/// Whether the regular expression `pattern` matches somewhere in
/// `haystack`, as decided by the `regex` crate.
pub uninterp spec fn regex_finds_match(pattern: Seq<char>, haystack: Seq<char>) -> bool;

/// `regex::Regex`, a compiled regular expression, known to Verus only as an
/// opaque type.
#[verifier::external_type_specification]
#[verifier::external_body]
pub struct ExRegex(regex::Regex);

/// `regex::Error`, the reason a pattern did not compile, known to Verus only
/// as an opaque type.
#[verifier::external_type_specification]
#[verifier::external_body]
pub struct ExRegexError(regex::Error);

/// Compiles `pattern` with `regex::Regex::new`. Claimed: the call succeeds
/// exactly for the patterns the crate accepts, which `regex_compiles` names.
#[verifier::external_body]
fn compile_regex(pattern: &str) -> (r: Result<Regex, regex::Error>)
    ensures
        r is Ok <==> regex_compiles(pattern@),
{
    Regex::new(pattern)
}

/// The pattern could not be compiled; it is given back.
#[derive(Debug)]
pub struct PatternError {
    pub pattern: String,
}

/// Checks that every non-null string of the column matches a regular
/// expression (anywhere in the string, unless the pattern is anchored).
#[derive(Debug)]
pub struct MatchesRegex {
    pattern: Regex,
    source: String,
}

impl View for MatchesRegex {
    type V = Seq<char>;

    /// The pattern's source text.
    closed spec fn view(&self) -> Seq<char> {
        self.source@
    }
}

/// Runs `regex::Regex::is_match` of the compiled pattern on `haystack`.
/// Claimed: the answer is the crate's verdict for the pattern's source text,
/// named by `regex_finds_match`; `check.pattern` was compiled from
/// `check.source` by `MatchesRegex::new`, the only way to build one.
#[verifier::external_body]
pub(crate) fn regex_is_match(check: &MatchesRegex, haystack: &str) -> (b: bool)
    ensures
        b == regex_finds_match(check@, haystack@),
{
    check.pattern.is_match(haystack)
}

impl MatchesRegex {
    /// Compiles `pattern`; fails exactly when the `regex` crate rejects it.
    pub fn new(pattern: &str) -> (r: Result<MatchesRegex, PatternError>)
        ensures
            r is Ok <==> regex_compiles(pattern@),
            match r {
                Ok(m) => m@ == pattern@,
                Err(e) => e.pattern@ == pattern@,
            },
    {
        match compile_regex(pattern) {
            Ok(re) => Ok(MatchesRegex { pattern: re, source: owned(pattern) }),
            Err(_) => Err(PatternError { pattern: owned(pattern) }),
        }
    }

    /// The pattern's source text.
    pub fn as_str(&self) -> (s: &str)
        ensures
            s@ == self@,
    {
        self.source.as_str()
    }
}

/// The verdict of the pattern on each row: whether it matches the row's
/// string, and no verdict for a row holding no string.
pub open spec fn regex_verdicts(pattern: Seq<char>, cells: Seq<Cell>) -> Seq<Option<bool>> {
    Seq::new(
        cells.len(),
        |i: int|
            if cells[i] is Str {
                Some(regex_finds_match(pattern, cells[i]->Str_0))
            } else {
                None
            },
    )
}

/// Selects the rows whose verdict is `Some(false)`.
pub open spec fn is_false_row(verdicts: Seq<Option<bool>>) -> spec_fn(usize) -> bool {
    |i: usize| verdicts[i as int] == Some(false)
}

impl MatchesRegex {
    /// Runs the pattern on every string of the column.
    pub fn match_verdicts(&self, series: &Series) -> (verdicts: Vec<Option<bool>>)
        ensures
            verdicts@ == regex_verdicts(self@, series@.cells),
            verdicts@.len() == series@.cells.len(),
            forall|i: int|
                0 <= i < verdicts@.len() ==> #[trigger] verdicts@[i] == match series@.cells[i] {
                    Cell::Str(text) => Some(regex_finds_match(self@, text)),
                    _ => None,
                },
    {
        let ghost cells = series@.cells;
        let mut verdicts: Vec<Option<bool>> = Vec::new();
        let mut i: usize = 0;
        while i < series.values.len()
            invariant
                cells == series@.cells,
                i <= cells.len(),
                verdicts@ == regex_verdicts(self@, cells).take(i as int),
            decreases cells.len() - i,
        {
            assert(cells[i as int] == series.values@[i as int]@);
            let v = match &series.values[i] {
                Value::Str(s) => Some(regex_is_match(self, s.as_str())),
                _ => None,
            };
            verdicts.push(v);
            assert(verdicts@ =~= regex_verdicts(self@, cells).take(i as int + 1));
            i = i + 1;
        }
        assert(regex_verdicts(self@, cells).take(i as int) =~= regex_verdicts(self@, cells));
        verdicts
    }
}

/// The failures of the pattern rule `pattern` on a string column, given the
/// pattern's verdict on each row: none when no verdict is `Some(false)`,
/// otherwise one error listing those rows.
pub fn regex_failures(column_name: &str, pattern: &str, verdicts: &Vec<Option<bool>>) -> (errors: Vec<
    ValidationError,
>)
    ensures
        errors_view(errors@) == failures(
            column_name@,
            "MatchesRegex"@,
            row_indices(verdicts@.len()).filter(is_false_row(verdicts@)),
            regex_message(column_name@, pattern@),
        ),
{
    let ghost pred = is_false_row(verdicts@);
    let mut rows: Vec<usize> = Vec::new();
    let mut i: usize = 0;
    proof {
        assert(row_indices(0) =~= Seq::<usize>::empty());
        reveal_with_fuel(Seq::filter, 1);
    }
    while i < verdicts.len()
        invariant
            pred == is_false_row(verdicts@),
            i <= verdicts@.len(),
            rows@ == row_indices(i as nat).filter(pred),
        decreases verdicts@.len() - i,
    {
        proof {
            lemma_rows_filter_step(i as nat, pred);
        }
        if let Some(false) = verdicts[i] {
            rows.push(i);
        }
        i = i + 1;
    }
    let mut message = String::from_str("Values in '");
    message.append(column_name);
    message.append("' do not match pattern '");
    message.append(pattern);
    message.append("'");
    rows_failures(column_name, "MatchesRegex", rows, message)
}

impl Check for MatchesRegex {
    fn name(&self) -> (n: &str)
        ensures
            n@ == "MatchesRegex"@,
    {
        "MatchesRegex"
    }

    fn validate(&self, column_name: &str, series: &Series) -> (errors: Vec<ValidationError>)
        ensures
            errors_view(errors@) == regex_outcome(column_name@, self@, series@),
    {
        if series.dtype != DType::String {
            let mut errors: Vec<ValidationError> = Vec::new();
            errors.push(type_mismatch_error(column_name, self.name(), "String"));
            proof {
                assert(errors_view(errors@) =~= regex_outcome(column_name@, self@, series@));
            }
            return errors;
        }
        let verdicts = self.match_verdicts(series);
        proof {
            broadcast use vstd::std_specs::vec::axiom_spec_len;

            let cells = series@.cells;
            assert(series.values.len() == cells.len());
            lemma_rows_filter_ext(
                cells.len(),
                is_false_row(verdicts@),
                is_unmatched_row(cells, self@),
            );
        }
        regex_failures(column_name, self.as_str(), &verdicts)
    }
}

// ---------------------------------------------------------------------------
// OneOfString
// ---------------------------------------------------------------------------

/// Checks that every non-null string (or category) of the column belongs to
/// an allowed set.
pub struct OneOfString {
    pub allowed_values: StringHashSet,
}

impl View for OneOfString {
    type V = Set<Seq<char>>;

    open spec fn view(&self) -> Set<Seq<char>> {
        self.allowed_values@
    }
}

impl OneOfString {
    /// The rule allowing exactly the given strings.
    pub fn new(allowed: Vec<String>) -> (r: OneOfString)
        ensures
            r@ == allowed@.map_values(|s: String| s@).to_set(),
    {
        let mut set = StringHashSet::new();
        let ghost all = allowed@.map_values(|s: String| s@);
        let mut i: usize = 0;
        proof {
            assert(all.take(0).to_set() =~= Set::<Seq<char>>::empty());
        }
        while i < allowed.len()
            invariant
                all == allowed@.map_values(|s: String| s@),
                i <= allowed@.len(),
                set@ == all.take(i as int).to_set(),
            decreases allowed@.len() - i,
        {
            proof {
                assert(all.take(i as int + 1) =~= all.take(i as int).push(all[i as int]));
                all.take(i as int).lemma_push_to_set_commute(all[i as int]);
            }
            set.insert(allowed[i].clone());
            i = i + 1;
        }
        assert(all.take(i as int) =~= all);
        OneOfString { allowed_values: set }
    }
}

impl Check for OneOfString {
    fn name(&self) -> (n: &str)
        ensures
            n@ == "OneOfString"@,
    {
        "OneOfString"
    }

    fn validate(&self, column_name: &str, series: &Series) -> (errors: Vec<ValidationError>)
        ensures
            errors_view(errors@) == one_of_outcome(column_name@, self@, series@),
    {
        if !series.dtype.holds_strings() {
            let mut errors: Vec<ValidationError> = Vec::new();
            errors.push(type_mismatch_error(column_name, self.name(), "String"));
            proof {
                assert(errors_view(errors@) =~= one_of_outcome(column_name@, self@, series@));
            }
            return errors;
        }
        let ghost cells = series@.cells;
        let ghost pred = is_disallowed_row(cells, self@);
        let mut rows: Vec<usize> = Vec::new();
        let mut i: usize = 0;
        proof {
            assert(row_indices(0) =~= Seq::<usize>::empty());
            reveal_with_fuel(Seq::filter, 1);
        }
        while i < series.values.len()
            invariant
                cells == series@.cells,
                pred == is_disallowed_row(cells, self@),
                i <= cells.len(),
                rows@ == row_indices(i as nat).filter(pred),
            decreases cells.len() - i,
        {
            assert(cells[i as int] == series.values@[i as int]@);
            proof {
                lemma_rows_filter_step(i as nat, pred);
            }
            if let Value::Str(s) = &series.values[i] {
                if !self.allowed_values.contains(s.as_str()) {
                    rows.push(i);
                }
            }
            i = i + 1;
        }
        let mut message = String::from_str("Values in '");
        message.append(column_name);
        message.append("' are not part of the allowed set");
        rows_failures(column_name, self.name(), rows, message)
    }
}

// ---------------------------------------------------------------------------
// The built-in rules as one type
// ---------------------------------------------------------------------------

/// Any of the built-in rules that need no floating-point threshold.
pub enum BuiltinCheck {
    NotNull,
    UniqueValues,
    MatchesRegex(MatchesRegex),
    OneOfString(OneOfString),
}

/// The outcome of a built-in rule on `s`.
pub open spec fn builtin_outcome(check: BuiltinCheck, column: Seq<char>, s: SeriesView) -> Seq<
    ErrorView,
> {
    match check {
        BuiltinCheck::NotNull => not_null_outcome(column, s),
        BuiltinCheck::UniqueValues => unique_outcome(column, s),
        BuiltinCheck::MatchesRegex(m) => regex_outcome(column, m@, s),
        BuiltinCheck::OneOfString(o) => one_of_outcome(column, o@, s),
    }
}

/// The name a built-in rule reports.
pub open spec fn builtin_name(check: BuiltinCheck) -> Seq<char> {
    match check {
        BuiltinCheck::NotNull => "NotNull"@,
        BuiltinCheck::UniqueValues => "UniqueValues"@,
        BuiltinCheck::MatchesRegex(_) => "MatchesRegex"@,
        BuiltinCheck::OneOfString(_) => "OneOfString"@,
    }
}

impl Check for BuiltinCheck {
    fn name(&self) -> (n: &str)
        ensures
            n@ == builtin_name(*self),
    {
        match self {
            BuiltinCheck::NotNull => NotNull.name(),
            BuiltinCheck::UniqueValues => UniqueValues.name(),
            BuiltinCheck::MatchesRegex(m) => m.name(),
            BuiltinCheck::OneOfString(o) => o.name(),
        }
    }

    fn validate(&self, column_name: &str, series: &Series) -> (errors: Vec<ValidationError>)
        ensures
            errors_view(errors@) == builtin_outcome(*self, column_name@, series@),
    {
        match self {
            BuiltinCheck::NotNull => NotNull.validate(column_name, series),
            BuiltinCheck::UniqueValues => UniqueValues.validate(column_name, series),
            BuiltinCheck::MatchesRegex(m) => m.validate(column_name, series),
            BuiltinCheck::OneOfString(o) => o.validate(column_name, series),
        }
    }
}

/// A boxed rule is the rule inside: it reports the name and the errors that
/// the boxed rule reports.
impl<C: Check + ?Sized> Check for Box<C> {
    fn name(&self) -> (n: &str)
        ensures
            call_ensures(C::name, (&**self,), n),
    {
        (**self).name()
    }

    fn validate(&self, column_name: &str, series: &Series) -> (errors: Vec<ValidationError>)
        ensures
            call_ensures(C::validate, (&**self, column_name, series), errors),
    {
        (**self).validate(column_name, series)
    }
}

} // verus!

verus! {

/// `rows` lists rows of a column of `len` rows, in strictly increasing order.
pub open spec fn ascending_rows(rows: Seq<usize>, len: nat) -> bool {
    &&& forall|a: int| 0 <= a < rows.len() ==> #[trigger] rows[a] < len
    &&& forall|a: int, b: int| 0 <= a < b < rows.len() ==> #[trigger] rows[a] < #[trigger] rows[b]
}

/// A built-in rule reports at most one error on a column. That error names
/// the column and the rule and lists rows of the column in strictly
/// increasing order. The null count in the message of `NotNull` is the number
/// of rows it lists.
pub proof fn lemma_builtin_outcome_shape(check: BuiltinCheck, column: Seq<char>, series: Series)
    ensures
        ({
            let out = builtin_outcome(check, column, series@);
            &&& out.len() <= 1
            &&& forall|k: int|
                0 <= k < out.len() ==> {
                    &&& (#[trigger] out[k]).column == column
                    &&& out[k].check == builtin_name(check)
                    &&& ascending_rows(out[k].rows, series@.cells.len())
                }
            &&& check is NotNull && out.len() == 1 ==> out[0].message == not_null_message(
                out[0].rows.len(),
                column,
            )
        }),
{
    broadcast use vstd::std_specs::vec::axiom_spec_len;

    let cells = series@.cells;
    let n = cells.len();
    assert(series.values.len() == n);
    match check {
        BuiltinCheck::NotNull => {
            lemma_rows_filter_facts(n, is_null_row(cells));
            lemma_null_rows_len(cells);
        },
        BuiltinCheck::UniqueValues => {
            lemma_rows_filter_facts(n, is_duplicated_row(cells));
        },
        BuiltinCheck::MatchesRegex(m) => {
            lemma_rows_filter_facts(n, is_unmatched_row(cells, m@));
        },
        BuiltinCheck::OneOfString(o) => {
            lemma_rows_filter_facts(n, is_disallowed_row(cells, o@));
        },
    }
}

} // verus!

verus! {

/// The message of a type error for a rule that needs strings.
proof fn lemma_type_error_message()
    ensures
        "Failed to dynamically cast column to "@ + "String"@
            == "Failed to dynamically cast column to String"@,
{
    reveal_strlit("Failed to dynamically cast column to ");
    reveal_strlit("String");
    reveal_strlit("Failed to dynamically cast column to String");
    assert("Failed to dynamically cast column to "@ + "String"@
        =~= "Failed to dynamically cast column to String"@);
}

/// The failures over a filtered set of rows: at most one error; there is one
/// exactly when some row in range passes the filter, and it lists exactly
/// the rows in range that pass.
pub proof fn lemma_failures_exact(
    column: Seq<char>,
    check: Seq<char>,
    n: nat,
    pred: spec_fn(usize) -> bool,
    message: Seq<char>,
)
    requires
        n <= usize::MAX,
    ensures
        ({
            let out = failures(column, check, row_indices(n).filter(pred), message);
            &&& out.len() <= 1
            &&& (out.len() == 1 <==> exists|r: usize| r < n && #[trigger] pred(r))
            &&& out.len() == 1 ==> {
                &&& out[0].column == column
                &&& out[0].check == check
                &&& out[0].message == message
                &&& forall|r: usize| #[trigger] out[0].rows.contains(r) <==> (r < n && pred(r))
            }
        }),
{
    let rows = row_indices(n).filter(pred);
    lemma_rows_filter_facts(n, pred);
    if rows.len() > 0 {
        assert(rows[0] < n && pred(rows[0]));
    }
    if exists|r: usize| r < n && #[trigger] pred(r) {
        let r = choose|r: usize| r < n && #[trigger] pred(r);
        assert(rows.contains(r));
    }
    assert forall|r: usize| #[trigger] rows.contains(r) implies r < n && pred(r) by {
        let k = choose|k: int| 0 <= k < rows.len() && rows[k] == r;
        assert(rows[k] < n && pred(rows[k]));
    }
}

/// `NotNull`, whatever the column's type: it reports one error exactly when
/// some row is null, and that error names the column and lists exactly the
/// null rows.
pub proof fn lemma_not_null_law(column: Seq<char>, series: Series)
    ensures
        ({
            let cells = series@.cells;
            let out = not_null_outcome(column, series@);
            &&& out.len() <= 1
            &&& (out.len() == 1 <==> exists|i: int| 0 <= i < cells.len() && #[trigger] cells[i] is Null)
            &&& out.len() == 1 ==> {
                &&& out[0].column == column
                &&& out[0].check == "NotNull"@
                &&& forall|r: usize|
                    #[trigger] out[0].rows.contains(r) <==> (r < cells.len() && cells[r as int] is Null)
                &&& ascending_rows(out[0].rows, cells.len())
                &&& out[0].message == "Found "@ + crate::text::decimal(out[0].rows.len())
                    + " null values in '"@ + column + "'"@
            }
        }),
{
    broadcast use vstd::std_specs::vec::axiom_spec_len;

    let cells = series@.cells;
    assert(series.values.len() == cells.len());
    lemma_null_rows_len(cells);
    lemma_rows_filter_facts(cells.len(), is_null_row(cells));
    let msg = not_null_message(null_count(cells), column);
    lemma_failures_exact(column, "NotNull"@, cells.len(), is_null_row(cells), msg);
    assert(not_null_outcome(column, series@) == failures(
        column,
        "NotNull"@,
        null_rows(cells),
        msg,
    ));
    if exists|i: int| 0 <= i < cells.len() && #[trigger] cells[i] is Null {
        let i = choose|i: int| 0 <= i < cells.len() && #[trigger] cells[i] is Null;
        assert(is_null_row(cells)(i as usize));
    }
    if exists|r: usize| r < cells.len() && #[trigger] is_null_row(cells)(r) {
        let r = choose|r: usize| r < cells.len() && #[trigger] is_null_row(cells)(r);
        assert(cells[r as int] is Null);
    }
}

/// `UniqueValues`, whatever the column's type: it reports one error exactly
/// when two distinct rows hold equal cells, and that error names the column
/// and lists exactly the rows whose cell also occurs at another row.
pub proof fn lemma_unique_law(column: Seq<char>, series: Series)
    ensures
        ({
            let cells = series@.cells;
            let out = unique_outcome(column, series@);
            &&& out.len() <= 1
            &&& (out.len() == 1 <==> exists|i: int, j: int|
                0 <= i < cells.len() && 0 <= j < cells.len() && i != j && #[trigger] cells[i]
                    == #[trigger] cells[j])
            &&& out.len() == 1 ==> {
                &&& out[0].column == column
                &&& out[0].check == "UniqueValues"@
                &&& forall|r: usize|
                    #[trigger] out[0].rows.contains(r) <==> (r < cells.len() && exists|j: int|
                        0 <= j < cells.len() && j != r && #[trigger] cells[j] == cells[r as int])
                &&& ascending_rows(out[0].rows, cells.len())
                &&& out[0].message == "Found duplicated values in '"@ + column + "'"@
            }
        }),
{
    broadcast use vstd::std_specs::vec::axiom_spec_len;

    let cells = series@.cells;
    assert(series.values.len() == cells.len());
    let pred = is_duplicated_row(cells);
    lemma_rows_filter_facts(cells.len(), pred);
    lemma_failures_exact(column, "UniqueValues"@, cells.len(), pred, unique_message(column));
    if exists|i: int, j: int|
        0 <= i < cells.len() && 0 <= j < cells.len() && i != j && #[trigger] cells[i]
            == #[trigger] cells[j] {
        let (i, j) = choose|i: int, j: int|
            0 <= i < cells.len() && 0 <= j < cells.len() && i != j && #[trigger] cells[i]
                == #[trigger] cells[j];
        assert(pred(i as usize));
    }
    if exists|r: usize| r < cells.len() && #[trigger] pred(r) {
        let r = choose|r: usize| r < cells.len() && #[trigger] pred(r);
        let j = choose|j: int| 0 <= j < cells.len() && j != r as int && cells[j] == cells[r as int];
        assert(cells[r as int] == cells[j]);
    }
}

/// `MatchesRegex`: on a column that is not a string column, one type error;
/// on a string column, one error exactly when some row holds a string the
/// pattern does not match, listing exactly those rows, whatever their
/// number.
pub proof fn lemma_regex_law(column: Seq<char>, pattern: Seq<char>, series: Series)
    ensures
        ({
            let cells = series@.cells;
            let out = regex_outcome(column, pattern, series@);
            &&& series@.dtype != DType::String ==> {
                &&& out.len() == 1
                &&& out[0].column == column
                &&& out[0].check == "MatchesRegex"@
                &&& out[0].rows.len() == 0
                &&& out[0].message == "Failed to dynamically cast column to String"@
            }
            &&& series@.dtype == DType::String ==> {
                &&& out.len() <= 1
                &&& (out.len() == 1 <==> exists|i: int|
                    0 <= i < cells.len() && #[trigger] cells[i] is Str && !regex_finds_match(
                        pattern,
                        cells[i]->Str_0,
                    ))
                &&& out.len() == 1 ==> {
                    &&& out[0].column == column
                    &&& out[0].check == "MatchesRegex"@
                    &&& forall|r: usize|
                        #[trigger] out[0].rows.contains(r) <==> (r < cells.len() && cells[r as int] is Str
                            && !regex_finds_match(pattern, cells[r as int]->Str_0))
                    &&& ascending_rows(out[0].rows, cells.len())
                    &&& out[0].message == "Values in '"@ + column + "' do not match pattern '"@
                        + pattern + "'"@
                }
            }
        }),
{
    broadcast use vstd::std_specs::vec::axiom_spec_len;

    let cells = series@.cells;
    assert(series.values.len() == cells.len());
    let pred = is_unmatched_row(cells, pattern);
    lemma_rows_filter_facts(cells.len(), pred);
    lemma_type_error_message();
    lemma_failures_exact(column, "MatchesRegex"@, cells.len(), pred, regex_message(column, pattern));
    if exists|i: int|
        0 <= i < cells.len() && #[trigger] cells[i] is Str && !regex_finds_match(
            pattern,
            cells[i]->Str_0,
        ) {
        let i = choose|i: int|
            0 <= i < cells.len() && #[trigger] cells[i] is Str && !regex_finds_match(
                pattern,
                cells[i]->Str_0,
            );
        assert(pred(i as usize));
    }
    if exists|r: usize| r < cells.len() && #[trigger] pred(r) {
        let r = choose|r: usize| r < cells.len() && #[trigger] pred(r);
        assert(cells[r as int] is Str);
    }
}

/// `OneOfString`: on a column holding neither strings nor categories, one
/// type error; otherwise one error exactly when some row holds a string
/// outside the allowed set, listing exactly those rows, whatever their
/// number.
pub proof fn lemma_one_of_law(column: Seq<char>, allowed: Set<Seq<char>>, series: Series)
    ensures
        ({
            let cells = series@.cells;
            let out = one_of_outcome(column, allowed, series@);
            &&& !spec_holds_strings(series@.dtype) ==> {
                &&& out.len() == 1
                &&& out[0].column == column
                &&& out[0].check == "OneOfString"@
                &&& out[0].rows.len() == 0
                &&& out[0].message == "Failed to dynamically cast column to String"@
            }
            &&& spec_holds_strings(series@.dtype) ==> {
                &&& out.len() <= 1
                &&& (out.len() == 1 <==> exists|i: int|
                    0 <= i < cells.len() && #[trigger] cells[i] is Str && !allowed.contains(
                        cells[i]->Str_0,
                    ))
                &&& out.len() == 1 ==> {
                    &&& out[0].column == column
                    &&& out[0].check == "OneOfString"@
                    &&& forall|r: usize|
                        #[trigger] out[0].rows.contains(r) <==> (r < cells.len() && cells[r as int] is Str
                            && !allowed.contains(cells[r as int]->Str_0))
                    &&& ascending_rows(out[0].rows, cells.len())
                    &&& out[0].message == "Values in '"@ + column
                        + "' are not part of the allowed set"@
                }
            }
        }),
{
    broadcast use vstd::std_specs::vec::axiom_spec_len;

    let cells = series@.cells;
    assert(series.values.len() == cells.len());
    let pred = is_disallowed_row(cells, allowed);
    lemma_rows_filter_facts(cells.len(), pred);
    lemma_type_error_message();
    lemma_failures_exact(column, "OneOfString"@, cells.len(), pred, one_of_message(column));
    if exists|i: int|
        0 <= i < cells.len() && #[trigger] cells[i] is Str && !allowed.contains(cells[i]->Str_0) {
        let i = choose|i: int|
            0 <= i < cells.len() && #[trigger] cells[i] is Str && !allowed.contains(
                cells[i]->Str_0,
            );
        assert(pred(i as usize));
    }
    if exists|r: usize| r < cells.len() && #[trigger] pred(r) {
        let r = choose|r: usize| r < cells.len() && #[trigger] pred(r);
        assert(cells[r as int] is Str);
    }
}

} // verus!

use vstd::prelude::*;
use vstd::string::*;

verus! {

/// One failed rule on one column: the column, the rule's name, the rows that
/// broke it (ascending) and a human-readable message.
#[derive(Debug)]
pub struct ValidationError {
    pub column: String,
    pub check: String,
    pub rows: Vec<usize>,
    pub message: String,
}

/// The mathematical content of a [`ValidationError`].
pub struct ErrorView {
    pub column: Seq<char>,
    pub check: Seq<char>,
    pub rows: Seq<usize>,
    pub message: Seq<char>,
}

impl View for ValidationError {
    type V = ErrorView;

    open spec fn view(&self) -> ErrorView {
        ErrorView {
            column: self.column@,
            check: self.check@,
            rows: self.rows@,
            message: self.message@,
        }
    }
}

/// The views of a sequence of errors, in order.
pub open spec fn errors_view(errors: Seq<ValidationError>) -> Seq<ErrorView> {
    errors.map_values(|e: ValidationError| e@)
}

/// Builds the view of an error from its four parts.
pub open spec fn error_view(
    column: Seq<char>,
    check: Seq<char>,
    rows: Seq<usize>,
    message: Seq<char>,
) -> ErrorView {
    ErrorView { column, check, rows, message }
}

/// All failures found by validating a frame against a schema.
#[derive(Debug)]
pub struct ValidationReport {
    pub errors: Vec<ValidationError>,
}

impl ValidationReport {
    /// True exactly when no rule failed.
    pub fn is_valid(&self) -> (valid: bool)
        ensures
            valid <==> self.errors@.len() == 0,
    {
        self.errors.len() == 0
    }
}

} // verus!

verus! {

/// The pieces joined with `sep` between each two.
pub open spec fn join(pieces: Seq<Seq<char>>, sep: Seq<char>) -> Seq<char>
    decreases pieces.len(),
{
    if pieces.len() == 0 {
        seq![]
    } else if pieces.len() == 1 {
        pieces[0]
    } else {
        join(pieces.drop_last(), sep) + sep + pieces.last()
    }
}

/// Row numbers written as `[1, 2, 3]`.
pub open spec fn rows_text(rows: Seq<usize>) -> Seq<char> {
    "["@ + join(rows.map_values(|r: usize| crate::text::decimal(r as nat)), ", "@) + "]"@
}

/// One line describing an error: the failing rows when it lists any,
/// otherwise its message.
pub open spec fn error_line(e: ErrorView) -> Seq<char> {
    if e.rows.len() > 0 {
        "Column '"@ + e.column + "': "@ + crate::text::decimal(e.rows.len()) + " rows failed check '"@
            + e.check + "' → rows "@ + rows_text(e.rows)
    } else {
        "Column '"@ + e.column + "': check '"@ + e.check + "' failed: "@ + e.message
    }
}

/// The lines of all errors, in order, one per line.
pub open spec fn summary_text(errors: Seq<ErrorView>) -> Seq<char> {
    join(errors.map_values(|e: ErrorView| error_line(e)), "\n"@)
}

fn rows_string(rows: &Vec<usize>) -> (s: String)
    ensures
        s@ == rows_text(rows@),
{
    let ghost pieces = rows@.map_values(|r: usize| crate::text::decimal(r as nat));
    let mut s = String::from_str("[");
    let mut i: usize = 0;
    while i < rows.len()
        invariant
            pieces == rows@.map_values(|r: usize| crate::text::decimal(r as nat)),
            i <= rows@.len(),
            s@ == "["@ + join(pieces.take(i as int), ", "@),
        decreases rows@.len() - i,
    {
        if i > 0 {
            s.append(", ");
        }
        let d = crate::text::decimal_string(rows[i]);
        s.append(d.as_str());
        proof {
            assert(pieces.take(i as int + 1).drop_last() =~= pieces.take(i as int));
            if i == 0 {
                assert(pieces.take(0) =~= Seq::<Seq<char>>::empty());
            }
        }
        i = i + 1;
    }
    assert(pieces.take(i as int) =~= pieces);
    s.append("]");
    s
}

fn error_line_string(e: &ValidationError) -> (s: String)
    ensures
        s@ == error_line(e@),
{
    let mut s = String::from_str("Column '");
    s.append(e.column.as_str());
    if e.rows.len() > 0 {
        s.append("': ");
        s.append(crate::text::decimal_string(e.rows.len()).as_str());
        s.append(" rows failed check '");
        s.append(e.check.as_str());
        s.append("' → rows ");
        s.append(rows_string(&e.rows).as_str());
    } else {
        s.append("': check '");
        s.append(e.check.as_str());
        s.append("' failed: ");
        s.append(e.message.as_str());
    }
    s
}

impl ValidationReport {
    /// A human-readable description of the report: one line per error, in
    /// order.
    pub fn summary(&self) -> (s: String)
        ensures
            s@ == summary_text(errors_view(self.errors@)),
    {
        let ghost lines = errors_view(self.errors@).map_values(|e: ErrorView| error_line(e));
        let mut s = String::new();
        let mut i: usize = 0;
        proof {
            assert(lines.take(0) =~= Seq::<Seq<char>>::empty());
        }
        while i < self.errors.len()
            invariant
                lines == errors_view(self.errors@).map_values(|e: ErrorView| error_line(e)),
                i <= self.errors@.len(),
                s@ == join(lines.take(i as int), "\n"@),
            decreases self.errors@.len() - i,
        {
            if i > 0 {
                s.append("\n");
            }
            let line = error_line_string(&self.errors[i]);
            s.append(line.as_str());
            proof {
                assert(lines[i as int] == line@);
                assert(lines.take(i as int + 1).drop_last() =~= lines.take(i as int));
                if i == 0 {
                    assert(lines.take(1) =~= seq![line@]);
                }
            }
            i = i + 1;
        }
        assert(lines.take(i as int) =~= lines);
        s
    }
}

} // verus!

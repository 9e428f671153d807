use vstd::prelude::*;

verus! {

/// What a column of undetermined type is known to hold.
#[derive(Clone, Copy, Debug, PartialEq, Eq, Structural)]
pub enum UnknownKind {
    Any,
    Int,
    Float,
    Str,
}

/// The logical type of a column.
#[derive(Clone, Copy, Debug, PartialEq, Eq, Structural)]
pub enum DType {
    Boolean,
    UInt8,
    UInt16,
    UInt32,
    UInt64,
    UInt128,
    Int8,
    Int16,
    Int32,
    Int64,
    Int128,
    Float16,
    Float32,
    Float64,
    Decimal,
    String,
    Binary,
    Date,
    Datetime,
    Duration,
    Time,
    Array,
    List,
    Object,
    Null,
    Categorical,
    Enum,
    Struct,
    Unknown(UnknownKind),
}

/// Integer column types (an undetermined integer column included).
pub open spec fn spec_is_integer(d: DType) -> bool {
    match d {
        DType::UInt8 | DType::UInt16 | DType::UInt32 | DType::UInt64 | DType::UInt128
        | DType::Int8 | DType::Int16 | DType::Int32 | DType::Int64 | DType::Int128 => true,
        DType::Unknown(UnknownKind::Int) => true,
        _ => false,
    }
}

/// Floating-point column types (an undetermined float column included).
pub open spec fn spec_is_float(d: DType) -> bool {
    match d {
        DType::Float16 | DType::Float32 | DType::Float64 => true,
        DType::Unknown(UnknownKind::Float) => true,
        _ => false,
    }
}

/// Numeric column types: integers, floats and decimals.
pub open spec fn spec_is_numeric(d: DType) -> bool {
    spec_is_integer(d) || spec_is_float(d) || d == DType::Decimal
}

impl DType {
    /// Whether the type is an integer type.
    pub fn is_integer(&self) -> (b: bool)
        ensures
            b == spec_is_integer(*self),
    {
        match self {
            DType::UInt8 | DType::UInt16 | DType::UInt32 | DType::UInt64 | DType::UInt128
            | DType::Int8 | DType::Int16 | DType::Int32 | DType::Int64 | DType::Int128 => true,
            DType::Unknown(UnknownKind::Int) => true,
            _ => false,
        }
    }

    /// Whether the type is a floating-point type.
    pub fn is_float(&self) -> (b: bool)
        ensures
            b == spec_is_float(*self),
    {
        match self {
            DType::Float16 | DType::Float32 | DType::Float64 => true,
            DType::Unknown(UnknownKind::Float) => true,
            _ => false,
        }
    }

    /// Whether the type is numeric (integer, float or decimal).
    pub fn is_numeric(&self) -> (b: bool)
        ensures
            b == spec_is_numeric(*self),
    {
        self.is_integer() || self.is_float() || *self == DType::Decimal
    }
}

/// The name of a column type, as written in messages.
pub open spec fn dtype_name(d: DType) -> Seq<char> {
    match d {
        DType::Boolean => "Boolean"@,
        DType::UInt8 => "UInt8"@,
        DType::UInt16 => "UInt16"@,
        DType::UInt32 => "UInt32"@,
        DType::UInt64 => "UInt64"@,
        DType::UInt128 => "UInt128"@,
        DType::Int8 => "Int8"@,
        DType::Int16 => "Int16"@,
        DType::Int32 => "Int32"@,
        DType::Int64 => "Int64"@,
        DType::Int128 => "Int128"@,
        DType::Float16 => "Float16"@,
        DType::Float32 => "Float32"@,
        DType::Float64 => "Float64"@,
        DType::Decimal => "Decimal"@,
        DType::String => "String"@,
        DType::Binary => "Binary"@,
        DType::Date => "Date"@,
        DType::Datetime => "Datetime"@,
        DType::Duration => "Duration"@,
        DType::Time => "Time"@,
        DType::Array => "Array"@,
        DType::List => "List"@,
        DType::Object => "Object"@,
        DType::Null => "Null"@,
        DType::Categorical => "Categorical"@,
        DType::Enum => "Enum"@,
        DType::Struct => "Struct"@,
        DType::Unknown(UnknownKind::Any) => "Unknown"@,
        DType::Unknown(UnknownKind::Int) => "Unknown(Int)"@,
        DType::Unknown(UnknownKind::Float) => "Unknown(Float)"@,
        DType::Unknown(UnknownKind::Str) => "Unknown(Str)"@,
    }
}

/// Types that hold strings: plain strings and categories.
pub open spec fn spec_holds_strings(d: DType) -> bool {
    d == DType::String || d == DType::Categorical || d == DType::Enum
}

impl DType {
    /// The name of the type, as written in messages.
    pub fn name(&self) -> (s: &'static str)
        ensures
            s@ == dtype_name(*self),
    {
        match self {
            DType::Boolean => "Boolean",
            DType::UInt8 => "UInt8",
            DType::UInt16 => "UInt16",
            DType::UInt32 => "UInt32",
            DType::UInt64 => "UInt64",
            DType::UInt128 => "UInt128",
            DType::Int8 => "Int8",
            DType::Int16 => "Int16",
            DType::Int32 => "Int32",
            DType::Int64 => "Int64",
            DType::Int128 => "Int128",
            DType::Float16 => "Float16",
            DType::Float32 => "Float32",
            DType::Float64 => "Float64",
            DType::Decimal => "Decimal",
            DType::String => "String",
            DType::Binary => "Binary",
            DType::Date => "Date",
            DType::Datetime => "Datetime",
            DType::Duration => "Duration",
            DType::Time => "Time",
            DType::Array => "Array",
            DType::List => "List",
            DType::Object => "Object",
            DType::Null => "Null",
            DType::Categorical => "Categorical",
            DType::Enum => "Enum",
            DType::Struct => "Struct",
            DType::Unknown(UnknownKind::Any) => "Unknown",
            DType::Unknown(UnknownKind::Int) => "Unknown(Int)",
            DType::Unknown(UnknownKind::Float) => "Unknown(Float)",
            DType::Unknown(UnknownKind::Str) => "Unknown(Str)",
        }
    }

    /// Whether the column holds strings: plain strings or categories.
    pub fn holds_strings(&self) -> (b: bool)
        ensures
            b == spec_holds_strings(*self),
    {
        *self == DType::String || *self == DType::Categorical || *self == DType::Enum
    }
}

/// One cell of a column. Signed integers, dates, times and decimals are held
/// by their integer value; floats by the bit pattern of their (canonical)
/// 64-bit value, so that two cells are equal exactly when their bits are.
#[derive(Debug)]
pub enum Value {
    Null,
    Boolean(bool),
    Int(i128),
    UInt(u128),
    Float(u64),
    Str(String),
}

/// The mathematical content of a [`Value`].
pub enum Cell {
    Null,
    Boolean(bool),
    Int(i128),
    UInt(u128),
    Float(u64),
    Str(Seq<char>),
}

impl View for Value {
    type V = Cell;

    open spec fn view(&self) -> Cell {
        match self {
            Value::Null => Cell::Null,
            Value::Boolean(b) => Cell::Boolean(*b),
            Value::Int(i) => Cell::Int(*i),
            Value::UInt(u) => Cell::UInt(*u),
            Value::Float(f) => Cell::Float(*f),
            Value::Str(s) => Cell::Str(s@),
        }
    }
}

impl Value {
    /// Whether the cell is null.
    pub fn is_null(&self) -> (b: bool)
        ensures
            b == (self@ is Null),
    {
        match self {
            Value::Null => true,
            _ => false,
        }
    }

    /// Cell equality: same variant and same content (two nulls are equal).
    pub fn same_as(&self, other: &Value) -> (b: bool)
        ensures
            b == (self@ == other@),
    {
        match (self, other) {
            (Value::Null, Value::Null) => true,
            (Value::Boolean(a), Value::Boolean(b)) => *a == *b,
            (Value::Int(a), Value::Int(b)) => *a == *b,
            (Value::UInt(a), Value::UInt(b)) => *a == *b,
            (Value::Float(a), Value::Float(b)) => *a == *b,
            (Value::Str(a), Value::Str(b)) => *a == *b,
            _ => false,
        }
    }
}

/// A named, typed column of cells.
#[derive(Debug)]
pub struct Series {
    pub name: String,
    pub dtype: DType,
    pub values: Vec<Value>,
}

/// The mathematical content of a [`Series`].
pub struct SeriesView {
    pub name: Seq<char>,
    pub dtype: DType,
    pub cells: Seq<Cell>,
}

impl View for Series {
    type V = SeriesView;

    open spec fn view(&self) -> SeriesView {
        SeriesView {
            name: self.name@,
            dtype: self.dtype,
            cells: self.values@.map_values(|v: Value| v@),
        }
    }
}

/// The row indices `0..n`, in order.
pub open spec fn row_indices(n: nat) -> Seq<usize> {
    Seq::new(n, |i: int| i as usize)
}

/// Selects null cells.
pub open spec fn is_null_cell() -> spec_fn(Cell) -> bool {
    |c: Cell| c is Null
}

/// Selects the rows whose cell is null.
pub open spec fn is_null_row(cells: Seq<Cell>) -> spec_fn(usize) -> bool {
    |i: usize| cells[i as int] is Null
}

/// The rows (ascending) whose cell is null.
pub open spec fn null_rows(cells: Seq<Cell>) -> Seq<usize> {
    row_indices(cells.len()).filter(is_null_row(cells))
}

/// The number of null cells.
pub open spec fn null_count(cells: Seq<Cell>) -> nat {
    cells.filter(is_null_cell()).len()
}

/// The number of distinct cells (all nulls count as one value).
pub open spec fn distinct_count(cells: Seq<Cell>) -> nat {
    cells.to_set().len()
}

/// Whether the cell at row `i` also occurs at some other row.
pub open spec fn is_duplicated_at(cells: Seq<Cell>, i: int) -> bool {
    exists|j: int| 0 <= j < cells.len() && j != i && cells[j] == cells[i]
}

/// Selects the rows whose cell occurs at another row too.
pub open spec fn is_duplicated_row(cells: Seq<Cell>) -> spec_fn(usize) -> bool {
    |i: usize| is_duplicated_at(cells, i as int)
}

/// The rows (ascending) whose cell occurs at least twice in the column.
pub open spec fn duplicated_rows(cells: Seq<Cell>) -> Seq<usize> {
    row_indices(cells.len()).filter(is_duplicated_row(cells))
}

proof fn lemma_row_indices_push(n: nat)
    ensures
        row_indices(n + 1) == row_indices(n).push(n as usize),
{
    assert(row_indices(n + 1) =~= row_indices(n).push(n as usize));
}

/// Adding row `n` to the rows `0..n` adds it to the filtered rows exactly when
/// it passes the filter.
pub proof fn lemma_rows_filter_step(n: nat, pred: spec_fn(usize) -> bool)
    ensures
        row_indices(n + 1).filter(pred) == if pred(n as usize) {
            row_indices(n).filter(pred).push(n as usize)
        } else {
            row_indices(n).filter(pred)
        },
{
    lemma_row_indices_push(n);
    row_indices(n).lemma_filter_push(n as usize, pred);
}

/// Every row of a filtered row list is in range and passes the filter; every
/// row in range that passes the filter is listed; the list is strictly
/// increasing.
pub proof fn lemma_rows_filter_facts(n: nat, pred: spec_fn(usize) -> bool)
    requires
        n <= usize::MAX,
    ensures
        forall|k: int|
            0 <= k < row_indices(n).filter(pred).len() ==> {
                let r = #[trigger] row_indices(n).filter(pred)[k];
                r < n && pred(r)
            },
        forall|r: usize| r < n && pred(r) ==> #[trigger] row_indices(n).filter(pred).contains(r),
        forall|a: int, b: int|
            0 <= a < b < row_indices(n).filter(pred).len() ==> #[trigger] row_indices(n).filter(
                pred,
            )[a] < #[trigger] row_indices(n).filter(pred)[b],
    decreases n,
{
    if n > 0 {
        let m = (n - 1) as nat;
        lemma_rows_filter_facts(m, pred);
        lemma_rows_filter_step(m, pred);
        let prev = row_indices(m).filter(pred);
        let cur = row_indices(n).filter(pred);
        assert forall|r: usize| r < n && pred(r) implies cur.contains(r) by {
            if r < m {
                assert(prev.contains(r));
                let k = choose|k: int| 0 <= k < prev.len() && prev[k] == r;
                assert(cur[k] == r);
            } else {
                assert(cur[cur.len() - 1] == r);
            }
        }
        assert forall|a: int, b: int| 0 <= a < b < cur.len() implies cur[a] < cur[b] by {
            assert(prev[a] < m);
            if pred(m as usize) {
                assert(cur == prev.push(m as usize));
                assert(cur[a] == prev[a]);
                if b < prev.len() {
                    assert(cur[b] == prev[b]);
                    assert(prev[a] < prev[b]);
                } else {
                    assert(cur[b] == m);
                }
            } else {
                assert(cur == prev);
                assert(prev[a] < prev[b]);
            }
        }
    } else {
        assert(row_indices(0) =~= Seq::<usize>::empty());
        reveal_with_fuel(Seq::filter, 1);
    }
}

impl Series {
    /// A column with the given name, type and cells.
    pub fn new(name: String, dtype: DType, values: Vec<Value>) -> (s: Series)
        ensures
            s.name == name,
            s.dtype == dtype,
            s.values == values,
    {
        Series { name, dtype, values }
    }

    /// The number of rows.
    pub fn len(&self) -> (n: usize)
        ensures
            n == self@.cells.len(),
    {
        self.values.len()
    }

    /// Whether the column has no rows.
    pub fn is_empty(&self) -> (b: bool)
        ensures
            b == (self@.cells.len() == 0),
    {
        self.values.len() == 0
    }

    /// The number of null cells.
    pub fn null_count(&self) -> (n: usize)
        ensures
            n == null_count(self@.cells),
    {
        let ghost cells = self@.cells;
        let ghost is_null = is_null_cell();
        let mut count: usize = 0;
        let mut i: usize = 0;
        while i < self.values.len()
            invariant
                cells == self@.cells,
                is_null == is_null_cell(),
                i <= cells.len(),
                count == cells.take(i as int).filter(is_null).len(),
                count <= i,
            decreases cells.len() - i,
        {
            assert(cells[i as int] == self.values@[i as int]@);
            proof {
                cells.take(i as int).lemma_filter_len_push(is_null, cells[i as int]);
                assert(cells.take(i as int + 1) =~= cells.take(i as int).push(cells[i as int]));
            }
            let nul = self.values[i].is_null();
            assert(nul == (self.values@[i as int]@ is Null));
            assert(nul == (cells[i as int] is Null));
            assert(nul == is_null(cells[i as int]));
            if nul {
                count = count + 1;
            }
            assert(count == cells.take(i as int + 1).filter(is_null).len());
            i = i + 1;
        }
        assert(cells.take(i as int) =~= cells);
        count
    }

    /// The rows (ascending) whose cell is null.
    pub fn null_rows(&self) -> (rows: Vec<usize>)
        ensures
            rows@ == null_rows(self@.cells),
    {
        let ghost cells = self@.cells;
        let ghost pred = is_null_row(cells);
        let mut rows: Vec<usize> = Vec::new();
        let mut i: usize = 0;
        proof {
            assert(row_indices(0) =~= Seq::<usize>::empty());
            reveal_with_fuel(Seq::filter, 1);
        }
        while i < self.values.len()
            invariant
                cells == self@.cells,
                pred == is_null_row(cells),
                i <= cells.len(),
                rows@ == row_indices(i as nat).filter(pred),
            decreases cells.len() - i,
        {
            assert(cells[i as int] == self.values@[i as int]@);
            proof {
                lemma_rows_filter_step(i as nat, pred);
            }
            if self.values[i].is_null() {
                rows.push(i);
            }
            i = i + 1;
        }
        rows
    }

    /// The number of distinct cells; all nulls count as a single value.
    pub fn n_unique(&self) -> (n: usize)
        ensures
            n == distinct_count(self@.cells),
    {
        broadcast use {vstd::set::group_set_axioms, vstd::seq_lib::seq_to_set_is_finite};

        let ghost cells = self@.cells;
        let mut count: usize = 0;
        let mut i: usize = 0;
        proof {
            assert(cells.take(0).to_set() =~= Set::<Cell>::empty());
        }
        while i < self.values.len()
            invariant
                cells == self@.cells,
                i <= cells.len(),
                count == cells.take(i as int).to_set().len(),
                count <= i,
            decreases cells.len() - i,
        {
            let mut seen = false;
            let mut j: usize = 0;
            while j < i
                invariant
                    cells == self@.cells,
                    j <= i < cells.len(),
                    seen <==> exists|k: int| 0 <= k < j && cells[k] == cells[i as int],
                decreases i - j,
            {
                assert(cells[j as int] == self.values@[j as int]@);
                assert(cells[i as int] == self.values@[i as int]@);
                if self.values[j].same_as(&self.values[i]) {
                    seen = true;
                }
                j = j + 1;
            }
            proof {
                let prefix = cells.take(i as int);
                assert(cells.take(i as int + 1) =~= prefix.push(cells[i as int]));
                prefix.lemma_push_to_set_commute(cells[i as int]);
                if seen {
                    let k = choose|k: int| 0 <= k < i && cells[k] == cells[i as int];
                    assert(prefix[k] == cells[i as int]);
                    assert(prefix.to_set().contains(cells[i as int]));
                } else {
                    assert(!prefix.contains(cells[i as int]));
                }
            }
            if !seen {
                count = count + 1;
            }
            i = i + 1;
        }
        assert(cells.take(i as int) =~= cells);
        count
    }

    /// Whether the cell at row `i` occurs at another row too.
    fn duplicated_at(&self, i: usize) -> (b: bool)
        requires
            i < self@.cells.len(),
        ensures
            b == is_duplicated_at(self@.cells, i as int),
    {
        let ghost cells = self@.cells;
        let mut j: usize = 0;
        while j < self.values.len()
            invariant
                cells == self@.cells,
                i < cells.len(),
                j <= cells.len(),
                forall|k: int| 0 <= k < j && k != i ==> cells[k] != cells[i as int],
            decreases cells.len() - j,
        {
            if j != i && self.values[j].same_as(&self.values[i]) {
                assert(cells[j as int] == cells[i as int]);
                return true;
            }
            j = j + 1;
        }
        false
    }

    /// The rows (ascending) whose cell occurs at least twice in the column;
    /// nulls count as equal to each other.
    pub fn duplicated_rows(&self) -> (rows: Vec<usize>)
        ensures
            rows@ == duplicated_rows(self@.cells),
    {
        let ghost cells = self@.cells;
        let ghost pred = is_duplicated_row(cells);
        let mut rows: Vec<usize> = Vec::new();
        let mut i: usize = 0;
        proof {
            assert(row_indices(0) =~= Seq::<usize>::empty());
            reveal_with_fuel(Seq::filter, 1);
        }
        while i < self.values.len()
            invariant
                cells == self@.cells,
                pred == is_duplicated_row(cells),
                i <= cells.len(),
                rows@ == row_indices(i as nat).filter(pred),
            decreases cells.len() - i,
        {
            assert(cells[i as int] == self.values@[i as int]@);
            proof {
                lemma_rows_filter_step(i as nat, pred);
            }
            if self.duplicated_at(i) {
                rows.push(i);
            }
            i = i + 1;
        }
        rows
    }
}

/// A collection of named columns.
#[derive(Debug)]
pub struct DataFrame {
    pub columns: Vec<Series>,
}

/// The first column named `name`, if any.
pub open spec fn find_column(columns: Seq<Series>, name: Seq<char>) -> Option<Series>
    decreases columns.len(),
{
    if columns.len() == 0 {
        None
    } else if columns[0].name@ == name {
        Some(columns[0])
    } else {
        find_column(columns.drop_first(), name)
    }
}

impl DataFrame {
    /// A frame holding the given columns, in order.
    pub fn new(columns: Vec<Series>) -> (df: DataFrame)
        ensures
            df.columns == columns,
    {
        DataFrame { columns }
    }

    /// The columns, in order.
    pub fn get_columns(&self) -> (cols: &Vec<Series>)
        ensures
            cols == &self.columns,
    {
        &self.columns
    }

    /// The number of columns.
    pub fn width(&self) -> (n: usize)
        ensures
            n == self.columns@.len(),
    {
        self.columns.len()
    }

    /// The first column named `name`, if there is one.
    pub fn column(&self, name: &str) -> (col: Option<&Series>)
        ensures
            match col {
                Some(c) => find_column(self.columns@, name@) == Some(*c),
                None => find_column(self.columns@, name@) is None,
            },
    {
        let key = name.to_owned();
        let ghost all = self.columns@;
        let mut i: usize = 0;
        assert(all.skip(0) =~= all);
        while i < self.columns.len()
            invariant
                all == self.columns@,
                key@ == name@,
                i <= all.len(),
                find_column(all, name@) == find_column(all.skip(i as int), name@),
            decreases all.len() - i,
        {
            assert(all.skip(i as int)[0] == all[i as int]);
            assert(all.skip(i as int).drop_first() =~= all.skip(i as int + 1));
            if self.columns[i].name == key {
                return Some(&self.columns[i]);
            }
            i = i + 1;
        }
        assert(all.skip(i as int).len() == 0);
        None
    }
}

} // verus!

verus! {

proof fn lemma_null_rows_prefix(cells: Seq<Cell>, n: nat)
    requires
        n <= cells.len() <= usize::MAX,
    ensures
        row_indices(n).filter(is_null_row(cells)).len() == cells.take(n as int).filter(
            is_null_cell(),
        ).len(),
    decreases n,
{
    if n == 0 {
        assert(row_indices(0) =~= Seq::<usize>::empty());
        assert(cells.take(0) =~= Seq::<Cell>::empty());
        reveal_with_fuel(Seq::filter, 1);
    } else {
        let m = (n - 1) as nat;
        lemma_null_rows_prefix(cells, m);
        lemma_rows_filter_step(m, is_null_row(cells));
        assert(cells.take(n as int) =~= cells.take(m as int).push(cells[m as int]));
        cells.take(m as int).lemma_filter_len_push(is_null_cell(), cells[m as int]);
    }
}

/// The number of rows listed as null equals the number of null cells.
pub proof fn lemma_null_rows_len(cells: Seq<Cell>)
    requires
        cells.len() <= usize::MAX,
    ensures
        null_rows(cells).len() == null_count(cells),
{
    lemma_null_rows_prefix(cells, cells.len());
    assert(cells.take(cells.len() as int) =~= cells);
}

} // verus!

verus! {

/// Two filters that agree on every row in range select the same rows.
pub proof fn lemma_rows_filter_ext(n: nat, p: spec_fn(usize) -> bool, q: spec_fn(usize) -> bool)
    requires
        n <= usize::MAX,
        forall|i: usize| i < n ==> #[trigger] p(i) == q(i),
    ensures
        row_indices(n).filter(p) == row_indices(n).filter(q),
    decreases n,
{
    if n == 0 {
        assert(row_indices(0) =~= Seq::<usize>::empty());
        reveal_with_fuel(Seq::filter, 1);
    } else {
        let m = (n - 1) as nat;
        lemma_rows_filter_ext(m, p, q);
        lemma_rows_filter_step(m, p);
        lemma_rows_filter_step(m, q);
        assert(p(m as usize) == q(m as usize));
    }
}


/// Counting the null cells: none exactly when no cell is null, all exactly
/// when every cell is.
pub proof fn lemma_null_count_extremes(cells: Seq<Cell>)
    ensures
        null_count(cells) <= cells.len(),
        null_count(cells) == 0 <==> forall|i: int|
            0 <= i < cells.len() ==> !(#[trigger] cells[i] is Null),
        null_count(cells) == cells.len() <==> forall|i: int|
            0 <= i < cells.len() ==> #[trigger] cells[i] is Null,
    decreases cells.len(),
{
    if cells.len() == 0 {
        reveal_with_fuel(Seq::filter, 1);
    } else {
        let rest = cells.drop_last();
        let last = cells.last();
        lemma_null_count_extremes(rest);
        assert(cells =~= rest.push(last));
        rest.lemma_filter_len_push(is_null_cell(), last);
        assert(forall|i: int| 0 <= i < rest.len() ==> #[trigger] rest[i] == cells[i]);
        if forall|i: int| 0 <= i < cells.len() ==> !(#[trigger] cells[i] is Null) {
            assert(!(cells[cells.len() - 1] is Null));
        }
        if forall|i: int| 0 <= i < cells.len() ==> #[trigger] cells[i] is Null {
            assert(cells[cells.len() - 1] is Null);
        }
    }
}


/// The numeric column types, listed: every signed and unsigned integer
/// width, the floating-point widths, decimals, and an undetermined column
/// known to hold integers or floats.
pub proof fn lemma_numeric_types(d: DType)
    ensures
        spec_is_numeric(d) <==> (d == DType::UInt8 || d == DType::UInt16 || d == DType::UInt32
            || d == DType::UInt64 || d == DType::UInt128 || d == DType::Int8 || d == DType::Int16
            || d == DType::Int32 || d == DType::Int64 || d == DType::Int128 || d == DType::Float16
            || d == DType::Float32 || d == DType::Float64 || d == DType::Decimal || d
            == DType::Unknown(UnknownKind::Int) || d == DType::Unknown(UnknownKind::Float)),
{
}

/// Looking a column up by name finds nothing exactly when no column has the
/// name; otherwise it finds the first column that has it.
pub proof fn lemma_find_column_law(columns: Seq<Series>, name: Seq<char>)
    ensures
        find_column(columns, name) is None <==> forall|i: int|
            0 <= i < columns.len() ==> (#[trigger] columns[i]).name@ != name,
        find_column(columns, name) is Some ==> exists|i: int|
            0 <= i < columns.len() && find_column(columns, name) == Some(#[trigger] columns[i])
                && columns[i].name@ == name && forall|j: int|
                0 <= j < i ==> (#[trigger] columns[j]).name@ != name,
    decreases columns.len(),
{
    if columns.len() > 0 {
        let rest = columns.drop_first();
        lemma_find_column_law(rest, name);
        assert(forall|i: int| 0 <= i < rest.len() ==> #[trigger] rest[i] == columns[i + 1]);
        if columns[0].name@ == name {
            assert(find_column(columns, name) == Some(columns[0]));
        } else {
            if find_column(rest, name) is Some {
                let i = choose|i: int|
                    0 <= i < rest.len() && find_column(rest, name) == Some(#[trigger] rest[i])
                        && rest[i].name@ == name && forall|j: int|
                        0 <= j < i ==> (#[trigger] rest[j]).name@ != name;
                assert(columns[i + 1] == rest[i]);
                assert forall|j: int| 0 <= j < i + 1 implies (#[trigger] columns[j]).name@ != name by {
                    if j > 0 {
                        assert(columns[j] == rest[j - 1]);
                    }
                }
            } else {
                assert forall|i: int| 0 <= i < columns.len() implies (#[trigger] columns[i]).name@
                    != name by {
                    if i > 0 {
                        assert(columns[i] == rest[i - 1]);
                    }
                }
            }
        }
    }
}
} // verus!

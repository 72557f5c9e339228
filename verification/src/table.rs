use vstd::prelude::*;

verus! {

use crate::error::ProfileError;

/// The declared type of a column. Only integer, float and string columns
/// can be profiled; a boolean column is representable but unsupported,
/// and aborts a profiling run.
#[derive(Debug, Clone, Copy, PartialEq, Eq, Structural)]
pub enum ColumnKind {
    Integer,
    Float,
    Str,
    Boolean,
}

/// One nullable cell of a column. Numeric columns hold `Int` cells: an
/// integer column holds its values as given, a float column holds them in
/// a fixed-point scale chosen by the layer that decoded the input, and a
/// boolean column holds zero or one. String columns hold `Text` cells.
#[derive(Debug, Clone, PartialEq)]
pub enum Cell {
    Null,
    Int(i64),
    Text(String),
}

/// Does the cell's payload agree with the column kind it sits in?
pub open spec fn cell_matches_kind(c: Cell, k: ColumnKind) -> bool {
    match c {
        Cell::Null => true,
        Cell::Int(_) => k == ColumnKind::Integer || k == ColumnKind::Float || k
            == ColumnKind::Boolean,
        Cell::Text(_) => k == ColumnKind::Str,
    }
}

/// How many cells of the sequence are null.
pub open spec fn count_nulls(cells: Seq<Cell>) -> nat
    decreases cells.len(),
{
    if cells.len() == 0 {
        0
    } else {
        count_nulls(cells.drop_last()) + if cells.last() is Null {
            1nat
        } else {
            0nat
        }
    }
}

/// The non-null integer payloads of the cells, in cell order.
pub open spec fn non_null_ints(cells: Seq<Cell>) -> Seq<i64>
    decreases cells.len(),
{
    if cells.len() == 0 {
        Seq::empty()
    } else {
        non_null_ints(cells.drop_last()) + match cells.last() {
            Cell::Int(v) => seq![v],
            _ => Seq::empty(),
        }
    }
}

/// The views of the non-null string payloads of the cells, in cell order.
pub open spec fn non_null_texts(cells: Seq<Cell>) -> Seq<Seq<char>>
    decreases cells.len(),
{
    if cells.len() == 0 {
        Seq::empty()
    } else {
        non_null_texts(cells.drop_last()) + match cells.last() {
            Cell::Text(s) => seq![s@],
            _ => Seq::empty(),
        }
    }
}

/// In a column without text cells, nulls and integer values partition the
/// cells, so both counts add up to the cell count.
pub proof fn lemma_numeric_partition(cells: Seq<Cell>)
    requires
        forall|i: int| 0 <= i < cells.len() ==> !((#[trigger] cells[i]) is Text),
    ensures
        non_null_ints(cells).len() + count_nulls(cells) == cells.len(),
    decreases cells.len(),
{
    if cells.len() > 0 {
        lemma_numeric_partition(cells.drop_last());
    }
}

/// In a column without integer cells, nulls and string values partition
/// the cells, so both counts add up to the cell count.
pub proof fn lemma_text_partition(cells: Seq<Cell>)
    requires
        forall|i: int| 0 <= i < cells.len() ==> !((#[trigger] cells[i]) is Int),
    ensures
        non_null_texts(cells).len() + count_nulls(cells) == cells.len(),
    decreases cells.len(),
{
    if cells.len() > 0 {
        lemma_text_partition(cells.drop_last());
    }
}

/// The distinct values of one column, as plain values: integer payloads
/// for the numeric kinds, strings for string columns.
#[derive(Debug, Clone, PartialEq)]
pub enum GenericVector {
    I(Vec<i64>),
    S(Vec<String>),
}

impl GenericVector {
    /// How many values the vector holds.
    pub fn len(&self) -> (r: usize)
        ensures
            r == match *self {
                GenericVector::I(v) => v@.len(),
                GenericVector::S(v) => v@.len(),
            },
    {
        match self {
            GenericVector::I(v) => v.len(),
            GenericVector::S(v) => v.len(),
        }
    }
}

/// One named, typed, ordered sequence of nullable values; immutable once
/// constructed.
#[derive(Debug, Clone)]
pub struct Column {
    pub name: String,
    pub kind: ColumnKind,
    pub cells: Vec<Cell>,
}

impl Column {
    /// Every cell agrees with the declared kind.
    pub open spec fn wf(self) -> bool {
        forall|i: int|
            0 <= i < self.cells@.len() ==> cell_matches_kind(#[trigger] self.cells@[i], self.kind)
    }

    /// Build a column, checking that every cell agrees with the declared
    /// kind; `None` when one does not.
    pub fn new(name: String, kind: ColumnKind, cells: Vec<Cell>) -> (r: Option<Column>)
        ensures
            match r {
                Some(c) => c.wf() && c.name == name && c.kind == kind && c.cells == cells,
                None => exists|i: int|
                    0 <= i < cells@.len() && !cell_matches_kind(#[trigger] cells@[i], kind),
            },
    {
        let mut i: usize = 0;
        while i < cells.len()
            invariant
                i <= cells.len(),
                forall|j: int| 0 <= j < i ==> cell_matches_kind(#[trigger] cells@[j], kind),
            decreases cells.len() - i,
        {
            let ok: bool = match &cells[i] {
                Cell::Null => true,
                Cell::Int(_) => match kind {
                    ColumnKind::Str => false,
                    _ => true,
                },
                Cell::Text(_) => match kind {
                    ColumnKind::Str => true,
                    _ => false,
                },
            };
            if !ok {
                return None;
            }
            i = i + 1;
        }
        Some(Column { name, kind, cells })
    }

    /// The column's name.
    pub fn name(&self) -> (r: &String)
        ensures
            r == self.name,
    {
        &self.name
    }

    /// The column's declared type.
    pub fn data_type(&self) -> (r: ColumnKind)
        ensures
            r == self.kind,
    {
        self.kind
    }

    /// How many cells the column has, nulls included.
    pub fn num_rows(&self) -> (r: usize)
        ensures
            r == self.cells@.len(),
    {
        self.cells.len()
    }

    /// How many of the column's cells are null.
    pub fn null_count(&self) -> (r: usize)
        ensures
            r == count_nulls(self.cells@),
    {
        let mut n: usize = 0;
        let mut i: usize = 0;
        proof {
            assert(self.cells@.take(0) =~= Seq::<Cell>::empty());
        }
        while i < self.cells.len()
            invariant
                i <= self.cells@.len(),
                n == count_nulls(self.cells@.take(i as int)),
                n <= i,
            decreases self.cells@.len() - i,
        {
            proof {
                assert(self.cells@.take(i as int + 1).drop_last() =~= self.cells@.take(i as int));
                assert(self.cells@.take(i as int + 1).last() == self.cells@[i as int]);
            }
            if let Cell::Null = &self.cells[i] {
                n = n + 1;
            }
            i = i + 1;
        }
        proof {
            assert(self.cells@.take(self.cells@.len() as int) =~= self.cells@);
        }
        n
    }

    /// The non-null numeric values of the column, in order. Fails with a
    /// type mismatch if and only if the column is not numeric.
    pub fn numeric_values(&self) -> (r: Result<Vec<i64>, ProfileError>)
        requires
            self.wf(),
        ensures
            match r {
                Ok(v) => (self.kind == ColumnKind::Integer || self.kind == ColumnKind::Float)
                    && v@ == non_null_ints(self.cells@),
                Err(e) => e == ProfileError::TypeMismatch && self.kind != ColumnKind::Integer
                    && self.kind != ColumnKind::Float,
            },
    {
        match self.kind {
            ColumnKind::Integer | ColumnKind::Float => {
                let mut out: Vec<i64> = Vec::new();
                let mut i: usize = 0;
                proof {
                    assert(self.cells@.take(0) =~= Seq::<Cell>::empty());
                }
                while i < self.cells.len()
                    invariant
                        self.wf(),
                        i <= self.cells@.len(),
                        out@ == non_null_ints(self.cells@.take(i as int)),
                    decreases self.cells@.len() - i,
                {
                    proof {
                        assert(self.cells@.take(i as int + 1).drop_last() =~= self.cells@.take(
                            i as int,
                        ));
                        assert(self.cells@.take(i as int + 1).last() == self.cells@[i as int]);
                        assert(cell_matches_kind(self.cells@[i as int], self.kind));
                    }
                    match &self.cells[i] {
                        Cell::Int(v) => {
                            out.push(*v);
                            proof {
                                assert(out@ =~= non_null_ints(self.cells@.take(i as int + 1)));
                            }
                        },
                        _ => {
                            proof {
                                assert(out@ =~= non_null_ints(self.cells@.take(i as int + 1)));
                            }
                        },
                    }
                    i = i + 1;
                }
                proof {
                    assert(self.cells@.take(self.cells@.len() as int) =~= self.cells@);
                }
                Ok(out)
            },
            _ => Err(ProfileError::TypeMismatch),
        }
    }

    /// The non-null string values of the column, in order. Fails with a
    /// type mismatch if and only if the column is not a string column.
    pub fn text_values(&self) -> (r: Result<Vec<String>, ProfileError>)
        requires
            self.wf(),
        ensures
            match r {
                Ok(v) => self.kind == ColumnKind::Str && v.deep_view() == non_null_texts(
                    self.cells@,
                ),
                Err(e) => e == ProfileError::TypeMismatch && self.kind != ColumnKind::Str,
            },
    {
        match self.kind {
            ColumnKind::Str => {
                let mut out: Vec<String> = Vec::new();
                let mut i: usize = 0;
                proof {
                    assert(self.cells@.take(0) =~= Seq::<Cell>::empty());
                }
                while i < self.cells.len()
                    invariant
                        self.wf(),
                        self.kind == ColumnKind::Str,
                        i <= self.cells@.len(),
                        out.deep_view() == non_null_texts(self.cells@.take(i as int)),
                    decreases self.cells@.len() - i,
                {
                    proof {
                        assert(self.cells@.take(i as int + 1).drop_last() =~= self.cells@.take(
                            i as int,
                        ));
                        assert(self.cells@.take(i as int + 1).last() == self.cells@[i as int]);
                        assert(cell_matches_kind(self.cells@[i as int], self.kind));
                    }
                    match &self.cells[i] {
                        Cell::Text(s) => {
                            out.push(s.clone());
                            proof {
                                assert(out.deep_view() =~= non_null_texts(
                                    self.cells@.take(i as int + 1),
                                ));
                            }
                        },
                        _ => {
                            proof {
                                assert(out.deep_view() =~= non_null_texts(
                                    self.cells@.take(i as int + 1),
                                ));
                            }
                        },
                    }
                    i = i + 1;
                }
                proof {
                    assert(self.cells@.take(self.cells@.len() as int) =~= self.cells@);
                }
                Ok(out)
            },
            _ => Err(ProfileError::TypeMismatch),
        }
    }

    /// The distinct non-null values of the column, integer payloads for
    /// the numeric kinds and strings for string columns, each kept at
    /// its first occurrence. A boolean column has no supported value
    /// set.
    pub fn uniques(&self) -> (r: GenericVector)
        requires
            self.wf(),
            self.kind != ColumnKind::Boolean,
        ensures
            match r {
                GenericVector::I(v) => (self.kind == ColumnKind::Integer || self.kind
                    == ColumnKind::Float) && v@.to_set() == non_null_ints(self.cells@).to_set()
                    && v@.no_duplicates(),
                GenericVector::S(v) => self.kind == ColumnKind::Str && v.deep_view().to_set()
                    == non_null_texts(self.cells@).to_set() && v.deep_view().no_duplicates(),
            },
    {
        match self.kind {
            ColumnKind::Str => {
                let vs: Vec<String> = match self.text_values() {
                    Ok(v) => v,
                    Err(e) => {
                        proof {
                            assert(false);
                        }
                        return GenericVector::S(Vec::new());
                    },
                };
                GenericVector::S(distinct_texts(&vs))
            },
            _ => {
                let vals: Vec<i64> = match self.numeric_values() {
                    Ok(v) => v,
                    Err(e) => {
                        proof {
                            assert(false);
                        }
                        return GenericVector::I(Vec::new());
                    },
                };
                GenericVector::I(distinct_ints(&vals))
            },
        }
    }

    /// How many distinct non-null values the column holds.
    pub fn nunique(&self) -> (r: usize)
        requires
            self.wf(),
            self.kind != ColumnKind::Boolean,
        ensures
            r as int == match self.kind {
                ColumnKind::Str => non_null_texts(self.cells@).to_set().len() as int,
                _ => non_null_ints(self.cells@).to_set().len() as int,
            },
    {
        let u: GenericVector = self.uniques();
        match u {
            GenericVector::I(v) => {
                proof {
                    v@.unique_seq_to_set();
                }
                v.len()
            },
            GenericVector::S(v) => {
                proof {
                    v.deep_view().unique_seq_to_set();
                }
                v.len()
            },
        }
    }

    /// Does the column's distinct-value ratio lie below the threshold
    /// given as the exact fraction `thresh_num / thresh_den`?
    pub fn is_categorical(&self, thresh_num: u64, thresh_den: u64) -> (r: bool)
        requires
            self.wf(),
            self.kind != ColumnKind::Boolean,
            self.cells@.len() > 0,
            thresh_den > 0,
        ensures
            r == ((match self.kind {
                ColumnKind::Str => non_null_texts(self.cells@).to_set().len() as int,
                _ => non_null_ints(self.cells@).to_set().len() as int,
            }) * (thresh_den as int) < (thresh_num as int) * (self.cells@.len() as int)),
    {
        let n: usize = self.nunique();
        let rows: usize = self.cells.len();
        proof {
            assert((n as int) * (thresh_den as int) <= u128::MAX as int) by (nonlinear_arith)
                requires
                    0 <= n as int <= 0xffff_ffff_ffff_ffffu64 as int,
                    0 <= thresh_den as int <= 0xffff_ffff_ffff_ffffu64 as int,
            ;
            assert((thresh_num as int) * (rows as int) <= u128::MAX as int) by (nonlinear_arith)
                requires
                    0 <= thresh_num as int <= 0xffff_ffff_ffff_ffffu64 as int,
                    0 <= rows as int <= 0xffff_ffff_ffff_ffffu64 as int,
            ;
        }
        let lhs: u128 = (n as u128) * (thresh_den as u128);
        let rhs: u128 = (thresh_num as u128) * (rows as u128);
        lhs < rhs
    }
}

/// Appending a value inserts it into the sequence's value set.
proof fn lemma_push_to_set<A>(s: Seq<A>, v: A)
    ensures
        s.push(v).to_set() =~= s.to_set().insert(v),
{
    assert forall|x: A| s.push(v).to_set().contains(x) <==> s.to_set().insert(v).contains(x) by {
        if s.push(v).to_set().contains(x) {
            let m = choose|m: int| 0 <= m < s.push(v).len() && #[trigger] s.push(v)[m] == x;
            if m < s.len() {
                assert(s[m] == x);
            }
        }
        if s.to_set().contains(x) {
            let m = choose|m: int| 0 <= m < s.len() && #[trigger] s[m] == x;
            assert(s.push(v)[m] == x);
        }
        assert(s.push(v)[s.len() as int] == v);
    }
}

/// Appending a fresh value keeps a sequence duplicate-free.
proof fn lemma_push_no_dup<A>(s: Seq<A>, v: A)
    requires
        s.no_duplicates(),
        !s.contains(v),
    ensures
        s.push(v).no_duplicates(),
{
    assert forall|i: int, j: int|
        0 <= i < j < s.push(v).len() implies s.push(v)[i] != s.push(v)[j] by {
        if j < s.len() {
            assert(s[i] != s[j]);
        } else {
            assert(s.push(v)[j] == v);
            assert(s.push(v)[i] == s[i]);
            if s[i] == v {
                assert(s.contains(v));
            }
        }
    }
}

/// The distinct values of the sequence, each kept at its first
/// occurrence, in order of first occurrence.
pub fn distinct_ints(values: &Vec<i64>) -> (r: Vec<i64>)
    ensures
        r@.to_set() == values@.to_set(),
        r@.no_duplicates(),
{
    let mut out: Vec<i64> = Vec::new();
    let mut i: usize = 0;
    proof {
        assert(values@.take(0).to_set() =~= Set::<i64>::empty());
        assert(out@.to_set() =~= Set::<i64>::empty());
    }
    while i < values.len()
        invariant
            i <= values@.len(),
            out@.to_set() == values@.take(i as int).to_set(),
            out@.no_duplicates(),
        decreases values@.len() - i,
    {
        let v: i64 = values[i];
        let mut seen: bool = false;
        let mut j: usize = 0;
        while j < i
            invariant
                j <= i,
                i <= values@.len(),
                v == values@[i as int],
                seen == exists|m: int| 0 <= m < j && values@[m] == v,
            decreases i - j,
        {
            if values[j] == v {
                seen = true;
            }
            j = j + 1;
        }
        proof {
            assert(values@.take(i as int + 1).to_set() =~= values@.take(i as int).to_set().insert(
                v,
            )) by {
                assert forall|x: i64|
                    values@.take(i as int + 1).to_set().contains(x) <==> values@.take(
                        i as int,
                    ).to_set().insert(v).contains(x) by {
                    if values@.take(i as int + 1).to_set().contains(x) {
                        let m = choose|m: int|
                            0 <= m < i + 1 && #[trigger] values@.take(i as int + 1)[m] == x;
                        if m < i {
                            assert(values@.take(i as int)[m] == x);
                        }
                    }
                    if values@.take(i as int).to_set().contains(x) {
                        let m = choose|m: int| 0 <= m < i && #[trigger] values@.take(i as int)[m] == x;
                        assert(values@.take(i as int + 1)[m] == x);
                    }
                    if x == v {
                        assert(values@.take(i as int + 1)[i as int] == v);
                    }
                }
            }
            assert(seen == values@.take(i as int).to_set().contains(v)) by {
                if seen {
                    let m = choose|m: int| 0 <= m < i && #[trigger] values@[m] == v;
                    assert(values@.take(i as int)[m] == v);
                }
                if values@.take(i as int).to_set().contains(v) {
                    let m = choose|m: int| 0 <= m < i && #[trigger] values@.take(i as int)[m] == v;
                    assert(values@[m] == v);
                }
            }
        }
        if !seen {
            proof {
                assert(!out@.to_set().contains(v));
                lemma_push_no_dup(out@, v);
                lemma_push_to_set(out@, v);
            }
            out.push(v);
        } else {
            proof {
                assert(values@.take(i as int).to_set().insert(v) =~= values@.take(
                    i as int,
                ).to_set());
            }
        }
        i = i + 1;
    }
    proof {
        assert(values@.take(values@.len() as int) =~= values@);
    }
    out
}

/// How many distinct values the sequence holds.
pub fn count_unique_ints(values: &Vec<i64>) -> (r: usize)
    ensures
        r == values@.to_set().len(),
{
    let d: Vec<i64> = distinct_ints(values);
    proof {
        d@.unique_seq_to_set();
    }
    d.len()
}

/// The distinct string values of the sequence, compared by exact
/// character content, each kept at its first occurrence.
pub fn distinct_texts(values: &Vec<String>) -> (r: Vec<String>)
    ensures
        r.deep_view().to_set() == values.deep_view().to_set(),
        r.deep_view().no_duplicates(),
{
    let ghost vs: Seq<Seq<char>> = values.deep_view();
    let mut out: Vec<String> = Vec::new();
    let mut i: usize = 0;
    proof {
        assert(vs.take(0).to_set() =~= Set::<Seq<char>>::empty());
        assert(out.deep_view().to_set() =~= Set::<Seq<char>>::empty());
    }
    while i < values.len()
        invariant
            i <= values@.len(),
            vs == values.deep_view(),
            vs.len() == values@.len(),
            out.deep_view().to_set() == vs.take(i as int).to_set(),
            out.deep_view().no_duplicates(),
        decreases values@.len() - i,
    {
        let ghost v: Seq<char> = vs[i as int];
        let mut seen: bool = false;
        let mut j: usize = 0;
        proof {
            assert(values@[i as int]@ == vs[i as int]);
        }
        while j < i
            invariant
                j <= i,
                i < values@.len(),
                vs == values.deep_view(),
                vs.len() == values@.len(),
                v == vs[i as int],
                seen == exists|m: int| 0 <= m < j && vs[m] == v,
            decreases i - j,
        {
            proof {
                assert(values@[j as int]@ == vs[j as int]);
            }
            if values[j] == values[i] {
                seen = true;
            }
            j = j + 1;
        }
        proof {
            assert(vs.take(i as int + 1).to_set() =~= vs.take(i as int).to_set().insert(v)) by {
                assert forall|x: Seq<char>|
                    vs.take(i as int + 1).to_set().contains(x) <==> vs.take(
                        i as int,
                    ).to_set().insert(v).contains(x) by {
                    if vs.take(i as int + 1).to_set().contains(x) {
                        let m = choose|m: int| 0 <= m < i + 1 && #[trigger] vs.take(i as int + 1)[m] == x;
                        if m < i {
                            assert(vs.take(i as int)[m] == x);
                        }
                    }
                    if vs.take(i as int).to_set().contains(x) {
                        let m = choose|m: int| 0 <= m < i && #[trigger] vs.take(i as int)[m] == x;
                        assert(vs.take(i as int + 1)[m] == x);
                    }
                    if x == v {
                        assert(vs.take(i as int + 1)[i as int] == v);
                    }
                }
            }
            assert(seen == vs.take(i as int).to_set().contains(v)) by {
                if seen {
                    let m = choose|m: int| 0 <= m < i && #[trigger] vs[m] == v;
                    assert(vs.take(i as int)[m] == v);
                }
                if vs.take(i as int).to_set().contains(v) {
                    let m = choose|m: int| 0 <= m < i && #[trigger] vs.take(i as int)[m] == v;
                    assert(vs[m] == v);
                }
            }
        }
        if !seen {
            let ghost before: Seq<Seq<char>> = out.deep_view();
            proof {
                assert(!before.to_set().contains(v));
                lemma_push_no_dup(before, v);
                lemma_push_to_set(before, v);
            }
            out.push(values[i].clone());
            proof {
                assert(out.deep_view() =~= before.push(v));
            }
        } else {
            proof {
                assert(vs.take(i as int).to_set().insert(v) =~= vs.take(i as int).to_set());
            }
        }
        i = i + 1;
    }
    proof {
        assert(vs.take(vs.len() as int) =~= vs);
    }
    out
}

/// How many distinct values the string sequence holds, compared by
/// exact character content.
pub fn count_unique_texts(values: &Vec<String>) -> (r: usize)
    ensures
        r == values.deep_view().to_set().len(),
{
    let d: Vec<String> = distinct_texts(values);
    proof {
        d.deep_view().unique_seq_to_set();
    }
    d.len()
}

/// An ordered sequence of named, typed columns of equal length; immutable
/// once constructed and read-only for the duration of a profiling run.
#[derive(Debug, Clone)]
pub struct Table {
    pub columns: Vec<Column>,
}

impl Table {
    /// Every column is well formed, all columns have the same number of
    /// rows, and column names are unique.
    pub open spec fn wf(self) -> bool {
        &&& forall|i: int| 0 <= i < self.columns@.len() ==> (#[trigger] self.columns@[i]).wf()
        &&& forall|i: int|
            0 <= i < self.columns@.len() ==> (#[trigger] self.columns@[i]).cells@.len()
                == self.columns@[0].cells@.len()
        &&& forall|i: int, j: int|
            0 <= i < j < self.columns@.len() ==> (#[trigger] self.columns@[i]).name@ != (
            #[trigger] self.columns@[j]).name@
    }

    /// All columns have the same number of rows and pairwise distinct
    /// names.
    pub open spec fn shape_ok(columns: Seq<Column>) -> bool {
        &&& forall|i: int|
            0 <= i < columns.len() ==> (#[trigger] columns[i]).cells@.len()
                == columns[0].cells@.len()
        &&& forall|i: int, j: int|
            0 <= i < j < columns.len() ==> (#[trigger] columns[i]).name@ != (
            #[trigger] columns[j]).name@
    }

    /// Build a table from columns, checking equal lengths and unique
    /// names; `None` exactly when those checks fail. The columns
    /// themselves are expected to be well formed, as `Column::new`
    /// leaves them.
    pub fn new(columns: Vec<Column>) -> (r: Option<Table>)
        requires
            forall|i: int| 0 <= i < columns@.len() ==> (#[trigger] columns@[i]).wf(),
        ensures
            match r {
                Some(t) => t.wf() && t.columns == columns,
                None => !Table::shape_ok(columns@),
            },
    {
        let mut i: usize = 0;
        while i < columns.len()
            invariant
                i <= columns@.len(),
                forall|j: int|
                    0 <= j < i ==> (#[trigger] columns@[j]).cells@.len()
                        == columns@[0].cells@.len(),
                forall|j: int, k: int|
                    0 <= j < k < i ==> (#[trigger] columns@[j]).name@ != (
                    #[trigger] columns@[k]).name@,
            decreases columns.len() - i,
        {
            if columns[i].cells.len() != columns[0].cells.len() {
                return None;
            }
            let mut j: usize = 0;
            while j < i
                invariant
                    j <= i,
                    i < columns@.len(),
                    forall|k: int| 0 <= k < j ==> (#[trigger] columns@[k]).name@ != columns@[i as int].name@,
                decreases i - j,
            {
                if columns[j].name == columns[i].name {
                    return None;
                }
                j = j + 1;
            }
            i = i + 1;
        }
        Some(Table { columns })
    }

    /// How many columns the table has.
    pub fn num_columns(&self) -> (r: usize)
        ensures
            r == self.columns@.len(),
    {
        self.columns.len()
    }

    /// How many rows the table has: the common length of its columns.
    pub fn num_rows(&self) -> (r: usize)
        requires
            self.columns@.len() > 0,
        ensures
            r == self.columns@[0].cells@.len(),
    {
        self.columns[0].cells.len()
    }

    /// The column at the given index.
    pub fn column(&self, i: usize) -> (r: &Column)
        requires
            i < self.columns@.len(),
        ensures
            r == self.columns@[i as int],
    {
        &self.columns[i]
    }

    /// The index of the column with the given name, which must be one
    /// of the table's column names.
    pub fn column_index(&self, name: &String) -> (r: usize)
        requires
            exists|j: int|
                0 <= j < self.columns@.len() && (#[trigger] self.columns@[j]).name@ == name@,
        ensures
            r < self.columns@.len(),
            self.columns@[r as int].name@ == name@,
    {
        let mut i: usize = 0;
        while i < self.columns.len()
            invariant
                i <= self.columns@.len(),
                exists|j: int|
                    0 <= j < self.columns@.len() && (#[trigger] self.columns@[j]).name@ == name@,
                forall|j: int| 0 <= j < i ==> (#[trigger] self.columns@[j]).name@ != name@,
            decreases self.columns@.len() - i,
        {
            if self.columns[i].name == *name {
                return i;
            }
            i = i + 1;
        }
        proof {
            let j = choose|j: int|
                0 <= j < self.columns@.len() && (#[trigger] self.columns@[j]).name@ == name@;
            assert(false);
        }
        0
    }

    /// The column with the given name, which must be one of the table's
    /// column names.
    pub fn column_by_name(&self, name: &String) -> (r: &Column)
        requires
            exists|j: int|
                0 <= j < self.columns@.len() && (#[trigger] self.columns@[j]).name@ == name@,
        ensures
            r.name@ == name@,
            exists|j: int| 0 <= j < self.columns@.len() && r == self.columns@[j],
    {
        let idx: usize = self.column_index(name);
        proof {
            assert(self.columns@[idx as int] == self.columns@[idx as int]);
        }
        &self.columns[idx]
    }

    /// The names of the columns, in table order.
    pub fn columns(&self) -> (r: Vec<String>)
        ensures
            r@.len() == self.columns@.len(),
            forall|i: int| 0 <= i < r@.len() ==> (#[trigger] r@[i])@ == self.columns@[i].name@,
    {
        let mut names: Vec<String> = Vec::new();
        let mut i: usize = 0;
        while i < self.columns.len()
            invariant
                i <= self.columns@.len(),
                names@.len() == i,
                forall|j: int| 0 <= j < i ==> (#[trigger] names@[j])@ == self.columns@[j].name@,
            decreases self.columns@.len() - i,
        {
            names.push(self.columns[i].name.clone());
            i = i + 1;
        }
        names
    }

    /// The declared types of the columns, in table order.
    pub fn column_types(&self) -> (r: Vec<ColumnKind>)
        ensures
            r@.len() == self.columns@.len(),
            forall|i: int| 0 <= i < r@.len() ==> #[trigger] r@[i] == self.columns@[i].kind,
    {
        let mut kinds: Vec<ColumnKind> = Vec::new();
        let mut i: usize = 0;
        while i < self.columns.len()
            invariant
                i <= self.columns@.len(),
                kinds@.len() == i,
                forall|j: int| 0 <= j < i ==> #[trigger] kinds@[j] == self.columns@[j].kind,
            decreases self.columns@.len() - i,
        {
            kinds.push(self.columns[i].kind);
            i = i + 1;
        }
        kinds
    }
}

} // verus!

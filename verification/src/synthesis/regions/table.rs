//! The contents of the fixed columns of lookup tables.
use vstd::prelude::*;
use std::collections::HashMap;
use vstd::std_specs::iter::IteratorSpec;
use crate::felt::Felt;
use crate::poly::Query;
use super::fixed::{fills_view, value_view};

verus! {

broadcast use vstd::std_specs::hash::group_hash_axioms;

/// What a column holds at some rows.
#[derive(Debug)]
pub enum Fill {
    /// The value of one row.
    Single(usize, Option<Felt>),
    /// The value of every row from the given one on.
    Many(usize, Option<Felt>),
}

/// Model of a fill: whether it is of a single row, its row (or first row), and its value.
pub open spec fn fill_view(f: Fill) -> (bool, usize, Option<nat>) {
    match f {
        Fill::Single(row, v) => (true, row, value_view(v)),
        Fill::Many(row, v) => (false, row, value_view(v)),
    }
}

/// Model of the fills of a column.
pub open spec fn fills_model(fills: Seq<Fill>) -> Seq<(bool, usize, Option<nat>)> {
    Seq::new(fills.len(), |i: int| fill_view(fills[i]))
}

impl Fill {
    /// The row of a single fill, the first row of a fill of many.
    pub fn row(&self) -> (r: usize)
        ensures
            r == fill_view(*self).1,
    {
        match self {
            Fill::Single(row, _) => *row,
            Fill::Many(row, _) => *row,
        }
    }
}

impl PartialEq for Fill {
    fn eq(&self, other: &Fill) -> (r: bool) {
        self.row() == other.row()
    }
}

impl vstd::std_specs::cmp::PartialEqSpecImpl for Fill {
    open spec fn obeys_eq_spec() -> bool {
        true
    }

    /// Fills are compared by their rows only.
    open spec fn eq_spec(&self, other: &Fill) -> bool {
        fill_view(*self).1 == fill_view(*other).1
    }
}

/// Whether the columns of a lookup are all in a table.
#[derive(Debug)]
pub enum ColumnMatch {
    /// All the columns are in the table.
    Contained,
    /// The queries of the columns that are not in the table, in order.
    Missing(Vec<Query>),
}

/// The fills of the fixed columns of a table, by column.
#[derive(Debug)]
pub struct TableData {
    values: HashMap<usize, Vec<Fill>>,
}

/// Whether the model lists the single cells of the map once each, each with its value.
pub open spec fn singles_match(m: Seq<(bool, usize, Option<nat>)>, cells: Map<usize, Option<Felt>>) -> bool {
    &&& forall|i: int| 0 <= i < m.len() && #[trigger] m[i].0 ==> cells.contains_key(m[i].1)
        && m[i].2 == value_view(cells[m[i].1])
    &&& forall|row: usize| #[trigger] cells.contains_key(row) ==> exists|i: int| 0 <= i < m.len() && m[i].0 && m[i].1 == row
    &&& forall|i: int, j: int| 0 <= i < j < m.len() && m[i].0 && m[j].0 ==> m[i].1 != m[j].1
}

/// The fills of many rows of the model, in order, each by its first row and value.
pub open spec fn manys(m: Seq<(bool, usize, Option<nat>)>) -> Seq<(usize, Option<nat>)>
    decreases m.len(),
{
    if m.len() == 0 {
        Seq::empty()
    } else if m.last().0 {
        manys(m.drop_last())
    } else {
        manys(m.drop_last()).push((m.last().1, m.last().2))
    }
}

/// The keys of the pairs that a walk over a map gives are distinct.
proof fn lemma_keys_distinct<K, V>(s: Seq<(&K, &V)>, m: Map<K, V>)
    requires
        s.no_duplicates(),
        forall|i: int| 0 <= i < s.len() ==> m.contains_key(*s[i].0) && m[*s[i].0] == *s[i].1,
    ensures
        forall|i: int, j: int| 0 <= i < j < s.len() ==> *s[i].0 != *s[j].0,
{
    assert forall|i: int, j: int| 0 <= i < j < s.len() implies *s[i].0 != *s[j].0 by {
        if *s[i].0 == *s[j].0 {
            assert(s[i] == s[j]);
        }
    }
}

impl TableData {
    /// The fills of the column, if the table has it.
    pub closed spec fn column(&self, col: usize) -> Option<Seq<(bool, usize, Option<nat>)>> {
        if self.values@.contains_key(col) {
            Some(fills_model(self.values@[col]@))
        } else {
            None
        }
    }

    /// The table of the single cells, by column and row, and of the fills of many rows, by
    /// column: a column has the cells and fills it has in either.
    pub fn new(fixed: HashMap<usize, HashMap<usize, Option<Felt>>>, blanket_fills: HashMap<usize, Vec<(usize, Option<Felt>)>>) -> (r: Self)
        ensures
            forall|col: usize| #[trigger] r.column(col) is Some <==> fixed@.contains_key(col) || blanket_fills@.contains_key(col),
            forall|col: usize| #[trigger] r.column(col) matches Some(m) ==> {
                &&& singles_match(m, if fixed@.contains_key(col) { fixed@[col]@ } else { Map::empty() })
                &&& manys(m) == if blanket_fills@.contains_key(col) { fills_view(blanket_fills@[col]@) } else { Seq::empty() }
            },
    {
        let mut values: HashMap<usize, Vec<Fill>> = HashMap::new();
        let ghost fseq = vstd::std_specs::hash::spec_hash_map_iter(&fixed).remaining();
        let ghost mut n: int = 0;
        for (col, cells) in it: fixed.iter()
            invariant
                it.seq() == fseq,
                n == it.index(),
                fseq == vstd::std_specs::hash::spec_hash_map_iter(&fixed).remaining(),
                forall|i: int| 0 <= i < fseq.len() ==> fixed@.contains_key(*fseq[i].0) && fixed@[*fseq[i].0] == *fseq[i].1,
                fseq.no_duplicates(),
                forall|c: usize| #[trigger] values@.contains_key(c) <==> exists|j: int| 0 <= j < n && *fseq[j].0 == c,
                forall|c: usize| #[trigger] values@.contains_key(c) ==> manys(fills_model(values@[c]@)) == Seq::<(usize, Option<nat>)>::empty()
                    && singles_match(fills_model(values@[c]@), fixed@[c]@),
        {
            let ghost cseq = vstd::std_specs::hash::spec_hash_map_iter(cells).remaining();
            proof {
                assert(fixed@[*col] == *cells);
                lemma_keys_distinct(fseq, fixed@);
                if values@.contains_key(*col) {
                    let j = choose|j: int| 0 <= j < n && *fseq[j].0 == *col;
                    assert(false);
                }
            }
            let mut fills: Vec<Fill> = Vec::new();
            let ghost mut k: int = 0;
            for (row, v) in jt: cells.iter()
                invariant
                    jt.seq() == cseq,
                    k == jt.index(),
                    cseq == vstd::std_specs::hash::spec_hash_map_iter(cells).remaining(),
                    forall|i: int| 0 <= i < cseq.len() ==> cells@.contains_key(*cseq[i].0) && cells@[*cseq[i].0] == *cseq[i].1,
                    cseq.no_duplicates(),
                    fills@.len() == k,
                    forall|i: int| 0 <= i < k ==> #[trigger] fill_view(fills@[i]) == (true, *cseq[i].0, value_view(*cseq[i].1)),
            {
                fills.push(Fill::Single(*row, copy_value(v)));
                proof {
                    k = k + 1;
                }
            }
            proof {
                let m = fills_model(fills@);
                assert(k == cseq.len());
                lemma_keys_distinct(cseq, cells@);
                assert forall|r: usize| #[trigger] cells@.contains_key(r) implies exists|i: int| 0 <= i < m.len() && m[i].0 && m[i].1 == r by {
                    assert(cseq.contains((&r, &cells@[r])));
                    let i = cseq.index_of((&r, &cells@[r]));
                    assert(m[i].1 == r);
                }
                lemma_manys_of_singles(m);
            }
            values.insert(*col, fills);
            proof {
                n = n + 1;
                assert forall|c: usize| #[trigger] values@.contains_key(c) <==> exists|j: int| 0 <= j < n && *fseq[j].0 == c by {
                    if c == *col {
                        assert(*fseq[n - 1].0 == c);
                    }
                }
            }
        }
        proof {
            assert forall|c: usize| #[trigger] values@.contains_key(c) <==> fixed@.contains_key(c) by {
                if fixed@.contains_key(c) {
                    assert(fseq.contains((&c, &fixed@[c])));
                    let j = fseq.index_of((&c, &fixed@[c]));
                    assert(*fseq[j].0 == c);
                }
                if values@.contains_key(c) {
                    let j = choose|j: int| 0 <= j < n && *fseq[j].0 == c;
                    assert(fixed@.contains_key(*fseq[j].0));
                }
            }
        }
        let ghost bseq = vstd::std_specs::hash::spec_hash_map_iter(&blanket_fills).remaining();
        let ghost mut n2: int = 0;
        for (col, src) in it2: blanket_fills.iter()
            invariant
                it2.seq() == bseq,
                n2 == it2.index(),
                bseq == vstd::std_specs::hash::spec_hash_map_iter(&blanket_fills).remaining(),
                forall|i: int| 0 <= i < bseq.len() ==> blanket_fills@.contains_key(*bseq[i].0) && blanket_fills@[*bseq[i].0] == *bseq[i].1,
                bseq.no_duplicates(),
                forall|c: usize| #[trigger] values@.contains_key(c) <==> fixed@.contains_key(c) || exists|j: int| 0 <= j < n2 && *bseq[j].0 == c,
                forall|c: usize| #[trigger] values@.contains_key(c) ==> {
                    &&& singles_match(fills_model(values@[c]@), if fixed@.contains_key(c) { fixed@[c]@ } else { Map::empty() })
                    &&& manys(fills_model(values@[c]@)) == if exists|j: int| 0 <= j < n2 && *bseq[j].0 == c {
                        fills_view(blanket_fills@[c]@)
                    } else {
                        Seq::empty()
                    }
                },
        {
            let ghost c = *col;
            proof {
                lemma_keys_distinct(bseq, blanket_fills@);
                assert(blanket_fills@[c] == *src);
                assert(!exists|j: int| 0 <= j < n2 && *bseq[j].0 == c) by {
                    if exists|j: int| 0 <= j < n2 && *bseq[j].0 == c {
                        let j = choose|j: int| 0 <= j < n2 && *bseq[j].0 == c;
                        assert(*bseq[n2].0 == c);
                    }
                }
            }
            let mut fills = match values.remove(col) {
                Some(v) => v,
                None => Vec::new(),
            };
            let ghost singles_of = if fixed@.contains_key(c) { fixed@[c]@ } else { Map::<usize, Option<Felt>>::empty() };
            assert(singles_match(fills_model(fills@), singles_of));
            assert(manys(fills_model(fills@)) == Seq::<(usize, Option<nat>)>::empty());
            let mut i: usize = 0;
            while i < src.len()
                invariant
                    i <= src@.len(),
                    singles_match(fills_model(fills@), singles_of),
                    manys(fills_model(fills@)) == fills_view(src@.take(i as int)),
                decreases src@.len() - i,
            {
                let ghost before = fills@;
                let start = src[i].0;
                let value = copy_value(&src[i].1);
                fills.push(Fill::Many(start, value));
                i = i + 1;
                proof {
                    assert(fills_model(fills@) =~= fills_model(before).push((false, start, value_view(value))));
                    assert(fills_model(fills@).drop_last() =~= fills_model(before));
                    assert(fills_view(src@.take(i as int)) =~= fills_view(src@.take(i - 1)).push((start, value_view(value))));
                    let m = fills_model(fills@);
                    let mb = fills_model(before);
                    assert forall|r: usize| #[trigger] singles_of.contains_key(r) implies exists|j: int| 0 <= j < m.len() && m[j].0 && m[j].1 == r by {
                        let j = choose|j: int| 0 <= j < mb.len() && mb[j].0 && mb[j].1 == r;
                        assert(m[j] == mb[j]);
                    }
                }
            }
            proof {
                assert(src@.take(i as int) =~= src@);
            }
            values.insert(*col, fills);
            proof {
                n2 = n2 + 1;
                assert(*bseq[n2 - 1].0 == c);
                assert forall|x: usize| #[trigger] values@.contains_key(x) ==> {
                    &&& singles_match(fills_model(values@[x]@), if fixed@.contains_key(x) { fixed@[x]@ } else { Map::empty() })
                    &&& manys(fills_model(values@[x]@)) == if exists|j: int| 0 <= j < n2 && *bseq[j].0 == x {
                        fills_view(blanket_fills@[x]@)
                    } else {
                        Seq::empty()
                    }
                } by {
                    if x != c && values@.contains_key(x) {
                        assert((exists|j: int| 0 <= j < n2 && *bseq[j].0 == x) == (exists|j: int| 0 <= j < n2 - 1 && *bseq[j].0 == x));
                    }
                }
            }
        }
        proof {
            assert forall|c: usize| (exists|j: int| 0 <= j < n2 && *bseq[j].0 == c) <==> blanket_fills@.contains_key(c) by {
                if blanket_fills@.contains_key(c) {
                    assert(bseq.contains((&c, &blanket_fills@[c])));
                    let j = bseq.index_of((&c, &blanket_fills@[c]));
                    assert(*bseq[j].0 == c);
                }
            }
        }
        TableData { values }
    }
}

/// A model with only fills of single rows has no fill of many rows.
proof fn lemma_manys_of_singles(m: Seq<(bool, usize, Option<nat>)>)
    requires
        forall|i: int| 0 <= i < m.len() ==> #[trigger] m[i].0,
    ensures
        manys(m) == Seq::<(usize, Option<nat>)>::empty(),
    decreases m.len(),
{
    if m.len() > 0 {
        lemma_manys_of_singles(m.drop_last());
    }
}

/// A copy of a value.
fn copy_value(v: &Option<Felt>) -> (r: Option<Felt>)
    ensures
        value_view(r) == value_view(*v),
{
    match v {
        Some(f) => Some(f.duplicate()),
        None => None,
    }
}

/// Why the rows of a table could not be read.
#[derive(Debug, Clone, Copy, PartialEq, Eq, Structural)]
pub enum TableError {
    /// A column has no fill, so it has no largest row.
    NoFills,
    /// The columns do not have the same number of rows.
    WrongTableSize,
    /// A row of a column up to the last row of the table has no value.
    Gaps,
    /// A row of a column was filled with an unknown value.
    UnknownValue,
}

/// Why the rows of a table could not be asked for.
#[derive(Debug, Clone, Copy, PartialEq, Eq, Structural)]
pub enum RowsRequestError {
    /// No column was asked for.
    NoColumns,
    /// A single fill of a column lies past the last row of the table, or the last row is the
    /// largest machine integer.
    RowsOutOfRange,
}

/// The columns of the queries that the table does not have, in order.
pub open spec fn missing_columns(t: TableData, cols: Seq<Query>) -> Seq<Query>
    decreases cols.len(),
{
    if cols.len() == 0 {
        Seq::empty()
    } else if t.column(cols.last().column_index) is Some {
        missing_columns(t, cols.drop_last())
    } else {
        missing_columns(t, cols.drop_last()).push(cols.last())
    }
}

/// The largest row of the fills of the given kind (single or many), if there is one.
pub open spec fn max_row(m: Seq<(bool, usize, Option<nat>)>, single: bool) -> Option<usize>
    decreases m.len(),
{
    if m.len() == 0 {
        None
    } else {
        let rest = max_row(m.drop_last(), single);
        if m.last().0 == single {
            match rest {
                Some(r) => if r < m.last().1 { Some(m.last().1) } else { Some(r) },
                None => Some(m.last().1),
            }
        } else {
            rest
        }
    }
}

/// The fill that bounds a column: its largest fill of many rows if it has one, else its
/// largest single fill; by kind (single or not) and row.
pub open spec fn bounding_fill(m: Seq<(bool, usize, Option<nat>)>) -> Option<(bool, usize)> {
    match max_row(m, false) {
        Some(r) => Some((false, r)),
        None => match max_row(m, true) {
            Some(r) => Some((true, r)),
            None => None,
        },
    }
}

/// Whether the bounding fills of two columns tell of different numbers of rows: two single
/// fills must be at the same row, a fill of many rows must not cover the other fill, and two
/// fills of many rows always disagree.
pub open spec fn sizes_conflict(a: (bool, usize), b: (bool, usize)) -> bool {
    match (a.0, b.0) {
        (true, true) => a.1 != b.1,
        (true, false) => b.1 <= a.1,
        (false, true) => a.1 <= b.1,
        (false, false) => true,
    }
}

/// The bounding fills of the first `n` columns, or the error of the first column that has
/// none or whose bounding fill conflicts with an earlier one.
pub open spec fn bounding_fills(tables: Seq<Seq<(bool, usize, Option<nat>)>>, n: int) -> Result<Seq<(bool, usize)>, TableError>
    decreases n,
{
    if n <= 0 {
        Ok(Seq::empty())
    } else {
        match bounding_fills(tables, n - 1) {
            Err(e) => Err(e),
            Ok(acc) => match bounding_fill(tables[n - 1]) {
                None => Err(TableError::NoFills),
                Some(f) => if exists|i: int| 0 <= i < acc.len() && sizes_conflict(#[trigger] acc[i], f) {
                    Err(TableError::WrongTableSize)
                } else {
                    Ok(acc.push(f))
                },
            },
        }
    }
}

/// The largest row among the bounding fills.
pub open spec fn max_bound(acc: Seq<(bool, usize)>) -> usize
    decreases acc.len(),
{
    if acc.len() == 0 {
        0
    } else {
        let rest = max_bound(acc.drop_last());
        if rest < acc.last().1 { acc.last().1 } else { rest }
    }
}

/// The value of the latest single fill of the row, if any.
pub open spec fn last_single(m: Seq<(bool, usize, Option<nat>)>, row: int) -> Option<Option<nat>>
    decreases m.len(),
{
    if m.len() == 0 {
        None
    } else if m.last().0 && m.last().1 == row {
        Some(m.last().2)
    } else {
        last_single(m.drop_last(), row)
    }
}

/// The value of the latest fill of many rows that covers the row, if any.
pub open spec fn last_many(m: Seq<(bool, usize, Option<nat>)>, row: int) -> Option<Option<nat>>
    decreases m.len(),
{
    if m.len() == 0 {
        None
    } else if !m.last().0 && m.last().1 <= row {
        Some(m.last().2)
    } else {
        last_many(m.drop_last(), row)
    }
}

/// The value a column gives the row: a single fill of the row overrides fills of many rows.
pub open spec fn cell_of(m: Seq<(bool, usize, Option<nat>)>, row: int) -> Option<Option<nat>> {
    match last_single(m, row) {
        Some(v) => Some(v),
        None => last_many(m, row),
    }
}

/// The values of the rows of a column up to the last row: an error if a row has no value, or
/// else if a row has an unknown one.
pub open spec fn column_values(m: Seq<(bool, usize, Option<nat>)>, upper: usize) -> Result<Seq<nat>, TableError> {
    if exists|row: int| 0 <= row <= upper && #[trigger] cell_of(m, row) is None {
        Err(TableError::Gaps)
    } else if exists|row: int| 0 <= row <= upper && #[trigger] cell_of(m, row) == Some(None::<nat>) {
        Err(TableError::UnknownValue)
    } else {
        Ok(Seq::new((upper + 1) as nat, |row: int| cell_of(m, row)->0->0))
    }
}

/// The values of the first `n` columns, or the error of the first that has one.
pub open spec fn columns_values(tables: Seq<Seq<(bool, usize, Option<nat>)>>, upper: usize, n: int) -> Result<Seq<Seq<nat>>, TableError>
    decreases n,
{
    if n <= 0 {
        Ok(Seq::empty())
    } else {
        match columns_values(tables, upper, n - 1) {
            Err(e) => Err(e),
            Ok(acc) => match column_values(tables[n - 1], upper) {
                Err(e) => Err(e),
                Ok(v) => Ok(acc.push(v)),
            },
        }
    }
}

impl TableData {
    /// The fills of the columns of the queries, all of which the table has.
    pub open spec fn tables_of(&self, cols: Seq<Query>) -> Seq<Seq<(bool, usize, Option<nat>)>> {
        Seq::new(cols.len(), |i: int| self.column(cols[i].column_index)->0)
    }

    /// The rows of the columns, one sequence of values per column: an error when a column has
    /// no fill or the columns disagree on their number of rows (see [`bounding_fills`]), or
    /// when a column has a gap or an unknown value up to the last row (see [`column_values`]).
    pub open spec fn rows_of(&self, cols: Seq<Query>) -> Result<Seq<Seq<nat>>, TableError> {
        let tables = self.tables_of(cols);
        match bounding_fills(tables, tables.len() as int) {
            Err(e) => Err(e),
            Ok(acc) => columns_values(tables, max_bound(acc), tables.len() as int),
        }
    }

    /// Whether the single fills of the columns lie within the rows that the table has, and
    /// the last row is below the largest machine integer.
    pub open spec fn rows_fit(&self, cols: Seq<Query>) -> bool {
        let tables = self.tables_of(cols);
        match bounding_fills(tables, tables.len() as int) {
            Err(_) => true,
            Ok(acc) => {
                &&& max_bound(acc) < usize::MAX
                &&& forall|t: int, i: int| 0 <= t < tables.len() && 0 <= i < tables[t].len() && #[trigger] tables[t][i].0
                    ==> tables[t][i].1 <= max_bound(acc)
            },
        }
    }
}

/// The bounding fill of a column, as [`bounding_fill`] says.
fn bounding_fill_of(fills: &Vec<Fill>) -> (r: Option<(bool, usize)>)
    ensures
        r == bounding_fill(fills_model(fills@)),
{
    let ghost m = fills_model(fills@);
    let mut max_single: Option<usize> = None;
    let mut max_many: Option<usize> = None;
    let mut k: usize = 0;
    while k < fills.len()
        invariant
            k <= fills@.len(),
            m == fills_model(fills@),
            max_single == max_row(m.take(k as int), true),
            max_many == max_row(m.take(k as int), false),
        decreases fills@.len() - k,
    {
        proof {
            assert(m.take(k + 1).drop_last() =~= m.take(k as int));
            assert(m.take(k + 1).last() == fill_view(fills@[k as int]));
        }
        match &fills[k] {
            Fill::Single(row, _) => {
                max_single = match max_single {
                    Some(r) => if r < *row { Some(*row) } else { Some(r) },
                    None => Some(*row),
                };
            },
            Fill::Many(row, _) => {
                max_many = match max_many {
                    Some(r) => if r < *row { Some(*row) } else { Some(r) },
                    None => Some(*row),
                };
            },
        }
        k = k + 1;
    }
    proof {
        assert(m.take(k as int) =~= m);
    }
    match max_many {
        Some(r) => Some((false, r)),
        None => match max_single {
            Some(r) => Some((true, r)),
            None => None,
        },
    }
}

/// Whether the bounding fills of two columns conflict, as [`sizes_conflict`] says.
fn conflicts(a: (bool, usize), b: (bool, usize)) -> (r: bool)
    ensures
        r == sizes_conflict(a, b),
{
    match (a.0, b.0) {
        (true, true) => a.1 != b.1,
        (true, false) => b.1 <= a.1,
        (false, true) => a.1 <= b.1,
        (false, false) => true,
    }
}

/// The values of a list of felts.
pub open spec fn felts_view(v: Seq<Felt>) -> Seq<nat> {
    Seq::new(v.len(), |i: int| v[i]@)
}

/// The value of a row after the fills of many rows among the first fills, and then, for
/// `singles` of them, the single fills.
pub open spec fn filled(m: Seq<(bool, usize, Option<nat>)>, k: int, singles: bool, row: int) -> Option<Option<nat>> {
    if singles {
        match last_single(m.take(k), row) {
            Some(v) => Some(v),
            None => last_many(m, row),
        }
    } else {
        last_many(m.take(k), row)
    }
}

/// Whether the dense column agrees with a model of its rows: a row is marked iff it has a
/// value, and then has that value.
pub open spec fn dense_matches(dense: Seq<Option<Felt>>, check: Seq<bool>, upper: usize, f: spec_fn(int) -> Option<Option<nat>>) -> bool {
    &&& dense.len() == upper + 1
    &&& check.len() == upper + 1
    &&& forall|row: int| 0 <= row <= upper ==> (#[trigger] check[row] <==> f(row) is Some)
    &&& forall|row: int| 0 <= row <= upper && check[row] ==> f(row) == Some(value_view(#[trigger] dense[row]))
}

/// The values of the rows of a column up to the last row, as [`column_values`] says.
fn fill_table(fills: &Vec<Fill>, upper: usize) -> (r: Result<Vec<Felt>, TableError>)
    requires
        upper < usize::MAX,
        forall|i: int| 0 <= i < fills@.len() && #[trigger] fills_model(fills@)[i].0 ==> fills_model(fills@)[i].1 <= upper,
    ensures
        match r {
            Ok(v) => column_values(fills_model(fills@), upper) == Ok::<Seq<nat>, TableError>(felts_view(v@)),
            Err(e) => column_values(fills_model(fills@), upper) == Err::<Seq<nat>, TableError>(e),
        },
{
    let ghost m = fills_model(fills@);
    let mut dense: Vec<Option<Felt>> = Vec::new();
    let mut check: Vec<bool> = Vec::new();
    let mut n: usize = 0;
    while n <= upper
        invariant
            n <= upper + 1,
            upper < usize::MAX,
            dense@.len() == n,
            check@.len() == n,
            forall|row: int| 0 <= row < n ==> !#[trigger] check@[row],
        decreases upper + 1 - n,
    {
        dense.push(None);
        check.push(false);
        n = n + 1;
    }
    proof {
        assert forall|row: int| 0 <= row <= upper implies filled(m, 0, false, row) is None by {
            assert(m.take(0) =~= Seq::<(bool, usize, Option<nat>)>::empty());
        }
    }
    // Fills of many rows, in order.
    let mut k: usize = 0;
    while k < fills.len()
        invariant
            k <= fills@.len(),
            m == fills_model(fills@),
            upper < usize::MAX,
            dense_matches(dense@, check@, upper, |row: int| filled(m, k as int, false, row)),
        decreases fills@.len() - k,
    {
        proof {
            assert(m.take(k + 1).drop_last() =~= m.take(k as int));
            assert(m.take(k + 1).last() == fill_view(fills@[k as int]));
        }
        match &fills[k] {
            Fill::Single(_, _) => {
                proof {
                    assert forall|row: int| 0 <= row <= upper implies filled(m, k + 1, false, row) == filled(m, k as int, false, row) by {}
                }
            },
            Fill::Many(start, value) => {
                let ghost d0 = dense@;
                let ghost c0 = check@;
                let mut idx: usize = *start;
                while idx <= upper
                    invariant
                        *start <= idx,
                        idx <= upper + 1 || idx == *start,
                        upper < usize::MAX,
                        dense@.len() == upper + 1,
                        check@.len() == upper + 1,
                        forall|row: int| 0 <= row <= upper && !(*start <= row < idx) ==> #[trigger] dense@[row] == d0[row] && check@[row] == c0[row],
                        forall|row: int| *start <= row < idx ==> #[trigger] check@[row] && value_view(dense@[row]) == value_view(*value),
                    decreases upper + 1 - idx,
                {
                    let v = copy_value(value);
                    dense.set(idx, v);
                    check.set(idx, true);
                    idx = idx + 1;
                }
                proof {
                    assert forall|row: int| 0 <= row <= upper implies (#[trigger] check@[row] <==> filled(m, k + 1, false, row) is Some) by {
                        if row < *start {
                            assert(check@[row] == c0[row]);
                        }
                    }
                    assert forall|row: int| 0 <= row <= upper && check@[row] implies filled(m, k + 1, false, row) == Some(value_view(#[trigger] dense@[row])) by {
                        if row < *start {
                            assert(check@[row] == c0[row]);
                            assert(dense@[row] == d0[row]);
                        }
                    }
                }
            },
        }
        k = k + 1;
    }
    proof {
        assert(m.take(k as int) =~= m);
        assert forall|row: int| 0 <= row <= upper implies filled(m, 0, true, row) == filled(m, k as int, false, row) by {
            assert(m.take(0) =~= Seq::<(bool, usize, Option<nat>)>::empty());
        }
    }
    // Single fills last, overriding the others.
    let mut k: usize = 0;
    while k < fills.len()
        invariant
            k <= fills@.len(),
            m == fills_model(fills@),
            upper < usize::MAX,
            forall|i: int| 0 <= i < m.len() && #[trigger] m[i].0 ==> m[i].1 <= upper,
            dense_matches(dense@, check@, upper, |row: int| filled(m, k as int, true, row)),
        decreases fills@.len() - k,
    {
        proof {
            assert(m.take(k + 1).drop_last() =~= m.take(k as int));
            assert(m.take(k + 1).last() == fill_view(fills@[k as int]));
        }
        match &fills[k] {
            Fill::Single(row, value) => {
                assert(m[k as int].0);
                let ghost d0 = dense@;
                let ghost c0 = check@;
                let v = copy_value(value);
                dense.set(*row, v);
                check.set(*row, true);
                proof {
                    assert forall|x: int| 0 <= x <= upper implies (#[trigger] check@[x] <==> filled(m, k + 1, true, x) is Some) by {
                        if x != *row {
                            assert(check@[x] == c0[x]);
                        }
                    }
                    assert forall|x: int| 0 <= x <= upper && check@[x] implies filled(m, k + 1, true, x) == Some(value_view(#[trigger] dense@[x])) by {
                        if x != *row {
                            assert(check@[x] == c0[x]);
                            assert(dense@[x] == d0[x]);
                        }
                    }
                }
            },
            Fill::Many(_, _) => {
                proof {
                    assert forall|x: int| 0 <= x <= upper implies filled(m, k + 1, true, x) == filled(m, k as int, true, x) by {}
                }
            },
        }
        k = k + 1;
    }
    proof {
        assert(m.take(k as int) =~= m);
        assert forall|x: int| 0 <= x <= upper implies filled(m, k as int, true, x) == cell_of(m, x) by {}
    }
    // Gaps, then unknown values.
    let mut x: usize = 0;
    while x <= upper
        invariant
            x <= upper + 1,
            upper < usize::MAX,
            m == fills_model(fills@),
            dense_matches(dense@, check@, upper, |row: int| cell_of(m, row)),
            forall|row: int| 0 <= row < x ==> #[trigger] cell_of(m, row) is Some,
        decreases upper + 1 - x,
    {
        if !check[x] {
            proof {
                assert(cell_of(m, x as int) is None);
            }
            return Err(TableError::Gaps);
        }
        x = x + 1;
    }
    let mut out: Vec<Felt> = Vec::new();
    let mut x: usize = 0;
    while x <= upper
        invariant
            x <= upper + 1,
            upper < usize::MAX,
            m == fills_model(fills@),
            dense_matches(dense@, check@, upper, |row: int| cell_of(m, row)),
            forall|row: int| 0 <= row <= upper ==> #[trigger] cell_of(m, row) is Some,
            out@.len() == x,
            forall|row: int| 0 <= row < x ==> cell_of(m, row) == Some(Some(#[trigger] out@[row]@)),
        decreases upper + 1 - x,
    {
        match &dense[x] {
            Some(f) => {
                out.push(f.duplicate());
            },
            None => {
                proof {
                    assert(cell_of(m, x as int) == Some(None::<nat>));
                }
                return Err(TableError::UnknownValue);
            },
        }
        x = x + 1;
    }
    proof {
        assert forall|row: int| 0 <= row <= upper implies #[trigger] cell_of(m, row) != Some(None::<nat>) by {
            assert(cell_of(m, row) == Some(Some(out@[row]@)));
        }
        let vals = column_values(m, upper)->Ok_0;
        assert(vals =~= felts_view(out@));
    }
    Ok(out)
}

impl TableData {
    /// Whether the table has the column.
    fn has_column(&self, col: usize) -> (r: bool)
        ensures
            r == self.column(col) is Some,
    {
        self.values.contains_key(&col)
    }

    /// Whether the table has the columns of all the queries, or else which it lacks, in order.
    /// There must be at least one query.
    pub fn check_columns(&self, cols: &Vec<Query>) -> (r: ColumnMatch)
        requires
            cols@.len() > 0,
        ensures
            match r {
                ColumnMatch::Contained => missing_columns(*self, cols@).len() == 0,
                ColumnMatch::Missing(v) => v@ == missing_columns(*self, cols@) && v@.len() > 0,
            },
    {
        let mut missing: Vec<Query> = Vec::new();
        let mut i: usize = 0;
        while i < cols.len()
            invariant
                i <= cols@.len(),
                missing@ == missing_columns(*self, cols@.take(i as int)),
            decreases cols@.len() - i,
        {
            proof {
                assert(cols@.take(i + 1).drop_last() =~= cols@.take(i as int));
            }
            if !self.has_column(cols[i].column_index) {
                missing.push(cols[i]);
            }
            i = i + 1;
        }
        proof {
            assert(cols@.take(i as int) =~= cols@);
        }
        if missing.len() == 0 {
            ColumnMatch::Contained
        } else {
            ColumnMatch::Missing(missing)
        }
    }

    /// The fills of the column, if the table has it.
    fn fills_of(&self, col: usize) -> (r: Option<&Vec<Fill>>)
        ensures
            match r {
                Some(v) => self.column(col) == Some(fills_model(v@)),
                None => self.column(col) is None,
            },
    {
        self.values.get(&col)
    }

    /// The bounding fills of the columns and the largest of their rows, or the error of
    /// [`bounding_fills`].
    fn bounds_of(&self, cols: &Vec<Query>) -> (r: Result<(Vec<(bool, usize)>, usize), TableError>)
        requires
            forall|i: int| 0 <= i < cols@.len() ==> self.column(#[trigger] cols@[i].column_index) is Some,
        ensures
            match bounding_fills(self.tables_of(cols@), cols@.len() as int) {
                Ok(acc) => r matches Ok((a, u)) && a@ == acc && u == max_bound(acc),
                Err(e) => r == Err::<(Vec<(bool, usize)>, usize), TableError>(e),
            },
    {
        let ghost tables = self.tables_of(cols@);
        let mut acc: Vec<(bool, usize)> = Vec::new();
        let mut i: usize = 0;
        while i < cols.len()
            invariant
                i <= cols@.len(),
                tables == self.tables_of(cols@),
                forall|j: int| 0 <= j < cols@.len() ==> self.column(#[trigger] cols@[j].column_index) is Some,
                bounding_fills(tables, i as int) == Ok::<Seq<(bool, usize)>, TableError>(acc@),
            decreases cols@.len() - i,
        {
            let fills = match self.fills_of(cols[i].column_index) {
                Some(v) => v,
                None => {
                    proof {
                        assert(self.column(cols@[i as int].column_index) is Some);
                    }
                    return Err(TableError::NoFills);
                },
            };
            assert(tables[i as int] == fills_model(fills@));
            let f = match bounding_fill_of(fills) {
                Some(f) => f,
                None => {
                    proof {
                        lemma_bounding_fills_err(tables, i as int + 1, tables.len() as int);
                    }
                    return Err(TableError::NoFills);
                },
            };
            let mut j: usize = 0;
            while j < acc.len()
                invariant
                    j <= acc@.len(),
                    i < cols@.len(),
                    tables == self.tables_of(cols@),
                    tables.len() == cols@.len(),
                    bounding_fills(tables, i as int) == Ok::<Seq<(bool, usize)>, TableError>(acc@),
                    bounding_fill(tables[i as int]) == Some(f),
                    forall|x: int| 0 <= x < j ==> !sizes_conflict(#[trigger] acc@[x], f),
                decreases acc@.len() - j,
            {
                if conflicts(acc[j], f) {
                    proof {
                        assert(sizes_conflict(acc@[j as int], f));
                        lemma_bounding_fills_err(tables, i as int + 1, tables.len() as int);
                    }
                    return Err(TableError::WrongTableSize);
                }
                j = j + 1;
            }
            acc.push(f);
            i = i + 1;
        }
        let mut upper: usize = 0;
        let mut k: usize = 0;
        while k < acc.len()
            invariant
                k <= acc@.len(),
                upper == max_bound(acc@.take(k as int)),
            decreases acc@.len() - k,
        {
            proof {
                assert(acc@.take(k + 1).drop_last() =~= acc@.take(k as int));
            }
            if upper < acc[k].1 {
                upper = acc[k].1;
            }
            k = k + 1;
        }
        proof {
            assert(acc@.take(k as int) =~= acc@);
            assert(tables.len() == cols@.len());
        }
        Ok((acc, upper))
    }

    /// Whether the single fills of the columns lie within the rows that the table has, as
    /// [`TableData::rows_fit`] says; the table must have the columns.
    pub fn fits(&self, cols: &Vec<Query>) -> (r: bool)
        requires
            forall|i: int| 0 <= i < cols@.len() ==> self.column(#[trigger] cols@[i].column_index) is Some,
        ensures
            r == self.rows_fit(cols@),
    {
        let ghost tables = self.tables_of(cols@);
        let (_acc, upper) = match self.bounds_of(cols) {
            Ok(x) => x,
            Err(_) => {
                return true;
            },
        };
        proof {
            assert(tables.len() == cols@.len());
            assert(bounding_fills(tables, tables.len() as int) is Ok);
        }
        if upper == usize::MAX {
            return false;
        }
        let mut i: usize = 0;
        while i < cols.len()
            invariant
                bounding_fills(tables, tables.len() as int) is Ok,
                upper == max_bound(bounding_fills(tables, tables.len() as int)->Ok_0),
                upper < usize::MAX,
                i <= cols@.len(),
                tables == self.tables_of(cols@),
                tables.len() == cols@.len(),
                forall|j: int| 0 <= j < cols@.len() ==> self.column(#[trigger] cols@[j].column_index) is Some,
                forall|t: int, x: int| 0 <= t < i && 0 <= x < tables[t].len() && #[trigger] tables[t][x].0 ==> tables[t][x].1 <= upper,
            decreases cols@.len() - i,
        {
            let fills = match self.fills_of(cols[i].column_index) {
                Some(v) => v,
                None => {
                    proof {
                        assert(self.column(cols@[i as int].column_index) is Some);
                    }
                    return false;
                },
            };
            assert(tables[i as int] == fills_model(fills@));
            let mut x: usize = 0;
            while x < fills.len()
                invariant
                    bounding_fills(tables, tables.len() as int) is Ok,
                    upper == max_bound(bounding_fills(tables, tables.len() as int)->Ok_0),
                    upper < usize::MAX,
                    x <= fills@.len(),
                    i < cols@.len(),
                    tables == self.tables_of(cols@),
                    tables.len() == cols@.len(),
                    tables[i as int] == fills_model(fills@),
                    forall|t: int, y: int| 0 <= t < i && 0 <= y < tables[t].len() && #[trigger] tables[t][y].0 ==> tables[t][y].1 <= upper,
                    forall|y: int| 0 <= y < x && #[trigger] tables[i as int][y].0 ==> tables[i as int][y].1 <= upper,
                decreases fills@.len() - x,
            {
                assert(tables[i as int][x as int] == fill_view(fills@[x as int]));
                match &fills[x] {
                    Fill::Single(row, _) => {
                        if *row > upper {
                            proof {
                                assert(tables[i as int][x as int].0);
                                assert(bounding_fills(tables, tables.len() as int) is Ok);
                                assert(upper == max_bound(bounding_fills(tables, tables.len() as int)->Ok_0));
                            }
                            return false;
                        }
                    },
                    Fill::Many(_, _) => {},
                }
                x = x + 1;
            }
            i = i + 1;
        }
        true
    }

    /// The rows of the columns, as [`TableData::rows_of`] says, when the table has them all.
    fn get_rows_impl(&self, cols: &Vec<Query>) -> (r: Result<Vec<Vec<Felt>>, TableError>)
        requires
            cols@.len() > 0,
            forall|i: int| 0 <= i < cols@.len() ==> self.column(#[trigger] cols@[i].column_index) is Some,
            self.rows_fit(cols@),
        ensures
            match r {
                Ok(v) => self.rows_of(cols@) == Ok::<Seq<Seq<nat>>, TableError>(felt_rows_view(v@)),
                Err(e) => self.rows_of(cols@) == Err::<Seq<Seq<nat>>, TableError>(e),
            },
    {
        let ghost tables = self.tables_of(cols@);
        let (acc, upper) = match self.bounds_of(cols) {
            Ok(x) => x,
            Err(e) => {
                return Err(e);
            },
        };
        proof {
            assert(tables.len() == cols@.len());
        }
        let mut out: Vec<Vec<Felt>> = Vec::new();
        proof {
            assert(felt_rows_view(out@) =~= Seq::<Seq<nat>>::empty());
        }
        let mut i: usize = 0;
        while i < cols.len()
            invariant
                i <= cols@.len(),
                tables == self.tables_of(cols@),
                tables.len() == cols@.len(),
                forall|j: int| 0 <= j < cols@.len() ==> self.column(#[trigger] cols@[j].column_index) is Some,
                bounding_fills(tables, tables.len() as int) == Ok::<Seq<(bool, usize)>, TableError>(acc@),
                upper == max_bound(acc@),
                self.rows_fit(cols@),
                columns_values(tables, upper, i as int) == Ok::<Seq<Seq<nat>>, TableError>(felt_rows_view(out@)),
            decreases cols@.len() - i,
        {
            let fills = match self.fills_of(cols[i].column_index) {
                Some(v) => v,
                None => {
                    proof {
                        assert(self.column(cols@[i as int].column_index) is Some);
                    }
                    return Err(TableError::NoFills);
                },
            };
            assert(tables[i as int] == fills_model(fills@));
            proof {
                assert forall|x: int| 0 <= x < fills@.len() && #[trigger] fills_model(fills@)[x].0 implies fills_model(fills@)[x].1 <= upper by {
                    assert(tables[i as int][x] == fills_model(fills@)[x]);
                }
            }
            match fill_table(fills, upper) {
                Ok(v) => {
                    let ghost before = out@;
                    out.push(v);
                    proof {
                        assert(felt_rows_view(out@) =~= felt_rows_view(before).push(felts_view(v@)));
                    }
                },
                Err(e) => {
                    proof {
                        lemma_columns_values_err(tables, upper, i as int + 1, tables.len() as int);
                    }
                    return Err(e);
                },
            }
            i = i + 1;
        }
        Ok(out)
    }

    /// The rows of the columns, as [`TableData::rows_of`] says; none when the table lacks some
    /// of the columns. There must be at least one column, and the single fills of the columns
    /// must lie within the rows the table has.
    pub fn get_rows(&self, cols: &Vec<Query>) -> (r: Option<Result<Vec<Vec<Felt>>, TableError>>)
        requires
            cols@.len() > 0,
            missing_columns(*self, cols@).len() == 0 ==> self.rows_fit(cols@),
        ensures
            r is None <==> missing_columns(*self, cols@).len() > 0,
            r matches Some(Ok(v)) ==> self.rows_of(cols@) == Ok::<Seq<Seq<nat>>, TableError>(felt_rows_view(v@)),
            r matches Some(Err(e)) ==> self.rows_of(cols@) == Err::<Seq<Seq<nat>>, TableError>(e),
    {
        match self.check_columns(cols) {
            ColumnMatch::Missing(_) => None,
            ColumnMatch::Contained => {
                proof {
                    lemma_no_missing(*self, cols@);
                }
                Some(self.get_rows_impl(cols))
            },
        }
    }

    /// The rows of the columns, as [`TableData::get_rows`] gives them, once it is checked that
    /// some column is asked for and that, when the table has the columns, their single fills
    /// lie within its rows (see [`TableData::rows_fit`]); an error otherwise.
    pub fn try_get_rows(&self, cols: &Vec<Query>) -> (r: Result<Option<Result<Vec<Vec<Felt>>, TableError>>, RowsRequestError>)
        ensures
            cols@.len() == 0 <==> r == Err::<Option<Result<Vec<Vec<Felt>>, TableError>>, RowsRequestError>(RowsRequestError::NoColumns),
            (cols@.len() > 0 && missing_columns(*self, cols@).len() == 0 && !self.rows_fit(cols@)) <==> r == Err::<
                Option<Result<Vec<Vec<Felt>>, TableError>>,
                RowsRequestError,
            >(RowsRequestError::RowsOutOfRange),
            r matches Ok(x) ==> (x is None <==> missing_columns(*self, cols@).len() > 0),
            r matches Ok(Some(Ok(v))) ==> self.rows_of(cols@) == Ok::<Seq<Seq<nat>>, TableError>(felt_rows_view(v@)),
            r matches Ok(Some(Err(e))) ==> self.rows_of(cols@) == Err::<Seq<Seq<nat>>, TableError>(e),
    {
        if cols.len() == 0 {
            return Err(RowsRequestError::NoColumns);
        }
        match self.check_columns(cols) {
            ColumnMatch::Missing(_) => Ok(None),
            ColumnMatch::Contained => {
                proof {
                    lemma_no_missing(*self, cols@);
                }
                if !self.fits(cols) {
                    return Err(RowsRequestError::RowsOutOfRange);
                }
                Ok(self.get_rows(cols))
            },
        }
    }
}

/// The values of the rows of several columns.
pub open spec fn felt_rows_view(v: Seq<Vec<Felt>>) -> Seq<Seq<nat>> {
    Seq::new(v.len(), |i: int| felts_view(v[i]@))
}

/// An error among the bounding fills of the first columns stays with more columns.
proof fn lemma_bounding_fills_err(tables: Seq<Seq<(bool, usize, Option<nat>)>>, n: int, m: int)
    requires
        0 <= n <= m,
        bounding_fills(tables, n) is Err,
    ensures
        bounding_fills(tables, m) == bounding_fills(tables, n),
    decreases m - n,
{
    if n < m {
        lemma_bounding_fills_err(tables, n, m - 1);
    }
}

/// An error among the values of the first columns stays with more columns.
proof fn lemma_columns_values_err(tables: Seq<Seq<(bool, usize, Option<nat>)>>, upper: usize, n: int, m: int)
    requires
        0 <= n <= m,
        columns_values(tables, upper, n) is Err,
    ensures
        columns_values(tables, upper, m) == columns_values(tables, upper, n),
    decreases m - n,
{
    if n < m {
        lemma_columns_values_err(tables, upper, n, m - 1);
    }
}

/// The values of the first `n` columns, when there are no errors, are `n` sequences of one
/// value per row up to the last.
proof fn lemma_columns_values_shape(tables: Seq<Seq<(bool, usize, Option<nat>)>>, upper: usize, n: int)
    requires
        n >= 0,
        columns_values(tables, upper, n) is Ok,
    ensures
        columns_values(tables, upper, n)->Ok_0.len() == n,
        forall|c: int| 0 <= c < n ==> (#[trigger] columns_values(tables, upper, n)->Ok_0[c]).len() == upper + 1,
    decreases n,
{
    if n > 0 {
        lemma_columns_values_shape(tables, upper, n - 1);
    }
}

/// The rows of the columns, when there is no error, are one sequence per column, all of the
/// same length.
pub proof fn lemma_rows_shape(t: TableData, cols: Seq<Query>)
    requires
        t.rows_of(cols) is Ok,
    ensures
        t.rows_of(cols)->Ok_0.len() == cols.len(),
        forall|c: int, d: int| 0 <= c < cols.len() && 0 <= d < cols.len() ==> (#[trigger] t.rows_of(cols)->Ok_0[c]).len()
            == (#[trigger] t.rows_of(cols)->Ok_0[d]).len(),
{
    let tables = t.tables_of(cols);
    let acc = bounding_fills(tables, tables.len() as int)->Ok_0;
    lemma_columns_values_shape(tables, max_bound(acc), tables.len() as int);
}

/// When no column is missing, the table has all of them.
pub proof fn lemma_no_missing(t: TableData, cols: Seq<Query>)
    requires
        missing_columns(t, cols).len() == 0,
    ensures
        forall|i: int| 0 <= i < cols.len() ==> t.column(#[trigger] cols[i].column_index) is Some,
    decreases cols.len(),
{
    if cols.len() > 0 {
        lemma_no_missing(t, cols.drop_last());
        assert forall|i: int| 0 <= i < cols.len() implies t.column(#[trigger] cols[i].column_index) is Some by {
            if i < cols.len() - 1 {
                assert(cols[i] == cols.drop_last()[i]);
            }
        }
    }
}

} // verus!

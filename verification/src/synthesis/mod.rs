//! Bookkeeping of what a circuit's synthesis records: regions, their rows and cells, and the
//! equality constraints between cells.

pub mod constraint;
pub mod groups;
pub mod matrix;
pub mod regions;
pub mod synthesizer;

use vstd::prelude::*;
use std::collections::HashSet;
use crate::felt::Felt;
use crate::resolvers::Fixed;
use crate::table::{Any, Column};
use constraint::{ArgModel, EqConstraint, EqConstraintArg, EqConstraintGraph};
use regions::fixed::{FixedData, FixedDataError};
use crate::lookups::{Lookup, LookupError, table_cells};
use crate::lookups::table::LookupTableRow;
use crate::poly::{Expression, Query};
use regions::table::{RowsRequestError, TableData, TableError, felts_view, felt_rows_view, lemma_rows_shape, manys, missing_columns, singles_match};

verus! {

/// Why building the synthesis failed.
#[derive(Debug, Clone, Copy, PartialEq, Eq, Structural)]
pub enum BuildError {
    /// A fixed cell in a copy constraint was assigned an unknown value.
    UnknownFixedValue,
    /// A table has columns for which there is no fixed data.
    MissingTableColumns,
}

/// The fixed cell that a vertex of the graph stands for, if it is a cell of a fixed column.
pub open spec fn fixed_cell_of(v: ArgModel) -> Option<(usize, usize)> {
    match v {
        ArgModel::Any(col, row) => if col.column_type == Any::Fixed {
            Some((col.index, row))
        } else {
            None
        },
        _ => None,
    }
}

/// The edge from the fixed cell to the value of the cell.
pub open spec fn const_edge(col: usize, row: usize, v: nat) -> (ArgModel, ArgModel) {
    (ArgModel::Fixed(Column { index: col, column_type: Fixed }, row), ArgModel::Const(v))
}

/// The edge from the fixed cell that the vertex stands for to the value of the cell, if the
/// vertex is a fixed cell whose value is known.
pub open spec fn value_edge(fixed: FixedData, v: ArgModel) -> Option<(ArgModel, ArgModel)> {
    match fixed_cell_of(v) {
        Some((col, row)) => match fixed.resolved(col, row) {
            Some(x) => Some(const_edge(col, row, x)),
            None => None,
        },
        None => None,
    }
}

/// Every vertex of the graph that is a fixed cell has a known value.
pub open spec fn fixed_vertices_known(vs: Seq<ArgModel>, fixed: FixedData) -> bool {
    forall|i: int| 0 <= i < vs.len() && (#[trigger] fixed_cell_of(vs[i])) is Some ==> value_edge(fixed, vs[i]) is Some
}

/// Adds to the graph, for each of its vertices that is a fixed cell, an edge from the cell to
/// the value assigned to it. A fixed cell whose value is unknown is an error; the vertices are
/// taken in order and the edges added before the error stay.
pub fn add_fixed_to_const_constraints(constraints: &mut EqConstraintGraph, fixed: &FixedData) -> (r: Result<(), BuildError>)
    ensures
        r is Ok <==> fixed_vertices_known(old(constraints).vertex_models(), *fixed),
        r is Err ==> r == Err::<(), BuildError>(BuildError::UnknownFixedValue),
        r is Ok ==> forall|i: int| 0 <= i < old(constraints).vertex_models().len() && (#[trigger] value_edge(
            *fixed,
            old(constraints).vertex_models()[i],
        )) is Some ==> final(constraints).has_edge(
            (value_edge(*fixed, old(constraints).vertex_models()[i])->0).0,
            (value_edge(*fixed, old(constraints).vertex_models()[i])->0).1,
        ),
        forall|a: ArgModel, b: ArgModel| old(constraints).has_edge(a, b) ==> final(constraints).has_edge(a, b),
        forall|k: int| 0 <= k < final(constraints).edge_models().len() ==> old(constraints).edge_models().contains(
            #[trigger] final(constraints).edge_models()[k],
        ) || exists|i: int| 0 <= i < old(constraints).vertex_models().len() && #[trigger] value_edge(
            *fixed,
            old(constraints).vertex_models()[i],
        ) == Some(final(constraints).edge_models()[k]),
{
    let vertices = constraints.vertices();
    let ghost vs = old(constraints).vertex_models();
    let ghost first = *old(constraints);
    let mut i: usize = 0;
    while i < vertices.len()
        invariant
            vertices@.len() == vs.len(),
            forall|k: int| 0 <= k < vertices@.len() ==> (#[trigger] vertices@[k])@ == vs[k],
            vs == first.vertex_models(),
            first == *old(constraints),
            i <= vertices@.len(),
            fixed_vertices_known(vs.take(i as int), *fixed),
            forall|k: int| 0 <= k < i && (#[trigger] value_edge(*fixed, vs[k])) is Some ==> constraints.has_edge(
                (value_edge(*fixed, vs[k])->0).0,
                (value_edge(*fixed, vs[k])->0).1,
            ),
            forall|a: ArgModel, b: ArgModel| first.has_edge(a, b) ==> constraints.has_edge(a, b),
            forall|k: int| 0 <= k < constraints.edge_models().len() ==> first.edge_models().contains(
                #[trigger] constraints.edge_models()[k],
            ) || exists|j: int| 0 <= j < vs.len() && #[trigger] value_edge(*fixed, vs[j]) == Some(
                constraints.edge_models()[k],
            ),
        decreases vertices@.len() - i,
    {
        let ghost before = *constraints;
        proof {
            assert(vertices@[i as int]@ == vs[i as int]);
        }
        match &vertices[i] {
            EqConstraintArg::Any(col, row) => {
                if col.column_type == Any::Fixed {
                    match fixed.resolve_fixed(col.index, *row) {
                        None => {
                            proof {
                                assert(fixed_cell_of(vs[i as int]) == Some((col.index, *row)));
                                assert(value_edge(*fixed, vs[i as int]) is None);
                            }
                            return Err(BuildError::UnknownFixedValue);
                        },
                        Some(value) => {
                            let ghost v = value@;
                            constraints.add(
                                EqConstraint::FixedToConst(Column { index: col.index, column_type: Fixed }, *row, value),
                            );
                            proof {
                                let e = const_edge(col.index, *row, v);
                                assert(value_edge(*fixed, vs[i as int]) == Some(e));
                                assert forall|a: ArgModel, b: ArgModel| before.has_edge(a, b) implies constraints.has_edge(a, b) by {
                                    let bm = before.edge_models();
                                    if bm.contains((a, b)) {
                                        let j = choose|j: int| 0 <= j < bm.len() && bm[j] == (a, b);
                                        assert(constraints.edge_models()[j] == (a, b));
                                    } else {
                                        let j = choose|j: int| 0 <= j < bm.len() && bm[j] == (b, a);
                                        assert(constraints.edge_models()[j] == (b, a));
                                    }
                                }
                                assert forall|k: int| 0 <= k < constraints.edge_models().len() implies first.edge_models().contains(
                                    #[trigger] constraints.edge_models()[k],
                                ) || exists|j: int| 0 <= j < vs.len() && #[trigger] value_edge(*fixed, vs[j]) == Some(
                                    constraints.edge_models()[k],
                                ) by {
                                    if k < before.edge_models().len() {
                                        assert(constraints.edge_models()[k] == before.edge_models()[k]);
                                    } else {
                                        assert(constraints.edge_models()[k] == e);
                                    }
                                }
                            }
                        },
                    }
                } else {
                    proof {
                        assert(fixed_cell_of(vs[i as int]) is None);
                    }
                }
            },
            _ => {
                proof {
                    assert(fixed_cell_of(vs[i as int]) is None);
                }
            },
        }
        i = i + 1;
        proof {
            assert forall|k: int| 0 <= k < vs.take(i as int).len() && (#[trigger] fixed_cell_of(vs.take(i as int)[k])) is Some
                implies value_edge(*fixed, vs.take(i as int)[k]) is Some by {
                if k < i - 1 {
                    assert(vs.take(i as int)[k] == vs.take(i - 1)[k]);
                }
            }
        }
    }
    proof {
        assert(vs.take(i as int) =~= vs);
    }
    Ok(())
}

/// The value assigned to the fixed cell itself, among the selected columns.
pub open spec fn selected_assigned(fixed: FixedData, cols: Set<usize>, col: usize, row: usize) -> Option<Option<nat>> {
    if cols.contains(col) {
        fixed.assigned(col, row)
    } else {
        None
    }
}

/// The fills of the column, among the selected columns.
pub open spec fn selected_fills(fixed: FixedData, cols: Set<usize>, col: usize) -> Seq<(usize, Option<nat>)> {
    if cols.contains(col) {
        fixed.fills(col)
    } else {
        Seq::empty()
    }
}

/// The table holds the fixed data of the selected columns: each column of the table has the
/// fills and the assigned cells of that column, and every column with data is in the table.
pub open spec fn table_of_columns(t: TableData, cols: Set<usize>, fixed: FixedData) -> bool {
    &&& forall|col: usize| #[trigger] t.column(col) is Some ==> {
        let m = t.column(col)->0;
        &&& manys(m) == selected_fills(fixed, cols, col)
        &&& forall|k: int| 0 <= k < m.len() && m[k].0 ==> selected_assigned(fixed, cols, col, #[trigger] m[k].1)
            == Some(m[k].2)
        &&& forall|row: usize| #[trigger] selected_assigned(fixed, cols, col, row) is Some ==> exists|k: int|
            0 <= k < m.len() && m[k].0 && m[k].1 == row
    }
    &&& forall|col: usize, row: usize| #[trigger] selected_assigned(fixed, cols, col, row) is Some ==> t.column(col) is Some
    &&& forall|col: usize| #[trigger] selected_fills(fixed, cols, col).len() > 0 ==> t.column(col) is Some
}

/// The table of the fixed data of the given columns. Columns without data are an error.
pub fn table_of(columns: &HashSet<usize>, fixed: &FixedData) -> (r: Result<TableData, BuildError>)
    ensures
        r is Err <==> !columns@.subset_of(fixed.spec_columns()),
        r is Err ==> r == Err::<TableData, BuildError>(BuildError::MissingTableColumns),
        r matches Ok(t) ==> table_of_columns(t, columns@, *fixed),
{
    match fixed.subset(columns) {
        Err(_) => Err(BuildError::MissingTableColumns),
        Ok(d) => {
            let ghost dd = d;
            let (cells, fills) = d.take();
            let t = TableData::new(cells, fills);
            proof {
                assert forall|col: usize| #[trigger] t.column(col) is Some implies {
                    let m = t.column(col)->0;
                    &&& manys(m) == selected_fills(*fixed, columns@, col)
                    &&& forall|k: int| 0 <= k < m.len() && m[k].0 ==> selected_assigned(*fixed, columns@, col, #[trigger] m[k].1)
                        == Some(m[k].2)
                    &&& forall|row: usize| #[trigger] selected_assigned(*fixed, columns@, col, row) is Some ==> exists|k: int|
                        0 <= k < m.len() && m[k].0 && m[k].1 == row
                } by {
                    let m = t.column(col)->0;
                    let cm = if cells@.contains_key(col) { cells@[col]@ } else { Map::empty() };
                    assert(singles_match(m, cm));
                    assert(dd.fills(col) == selected_fills(*fixed, columns@, col));
                    assert forall|k: int| 0 <= k < m.len() && m[k].0 implies selected_assigned(*fixed, columns@, col, #[trigger] m[k].1)
                        == Some(m[k].2) by {
                        assert(cm.contains_key(m[k].1));
                        assert(dd.assigned(col, m[k].1) == selected_assigned(*fixed, columns@, col, m[k].1));
                    }
                    assert forall|row: usize| #[trigger] selected_assigned(*fixed, columns@, col, row) is Some implies exists|k: int|
                        0 <= k < m.len() && m[k].0 && m[k].1 == row by {
                        assert(dd.assigned(col, row) is Some);
                        assert(cm.contains_key(row));
                    }
                }
                assert forall|col: usize, row: usize| #[trigger] selected_assigned(*fixed, columns@, col, row) is Some implies t.column(col) is Some by {
                    assert(dd.assigned(col, row) is Some);
                }
                assert forall|col: usize| #[trigger] selected_fills(*fixed, columns@, col).len() > 0 implies t.column(col) is Some by {
                    assert(dd.fills(col) == selected_fills(*fixed, columns@, col));
                }
            }
            Ok(t)
        },
    }
}

/// Creates the tables of the lookups, one for each set of columns that regions marked as
/// tables were made of.
pub fn fill_tables(tables: Vec<HashSet<usize>>, fixed: &FixedData) -> (r: Result<Vec<TableData>, BuildError>)
    ensures
        r is Err <==> exists|i: int| 0 <= i < tables@.len() && !(#[trigger] tables@[i])@.subset_of(fixed.spec_columns()),
        r is Err ==> r == Err::<Vec<TableData>, BuildError>(BuildError::MissingTableColumns),
        r matches Ok(v) ==> v@.len() == tables@.len() && forall|i: int| 0 <= i < v@.len() ==> table_of_columns(
            #[trigger] v@[i],
            tables@[i]@,
            *fixed,
        ),
{
    let mut out: Vec<TableData> = Vec::new();
    let mut i: usize = 0;
    while i < tables.len()
        invariant
            i <= tables@.len(),
            out@.len() == i,
            forall|k: int| 0 <= k < i ==> (#[trigger] tables@[k])@.subset_of(fixed.spec_columns()),
            forall|k: int| 0 <= k < i ==> table_of_columns(#[trigger] out@[k], tables@[k]@, *fixed),
        decreases tables@.len() - i,
    {
        match table_of(&tables[i], fixed) {
            Err(e) => {
                return Err(e);
            },
            Ok(t) => {
                out.push(t);
            },
        }
        i = i + 1;
    }
    Ok(out)
}

/// Why the rows of the table of a lookup could not be had.
#[derive(Debug, Clone, Copy, PartialEq, Eq, Structural)]
pub enum TableLookupError {
    /// The table expressions of the lookup are not fixed queries.
    Lookup(LookupError),
    /// No table has all the columns of the lookup.
    NoTable,
    /// The table that has the columns could not give their rows.
    Table(TableError),
    /// The table gave another number of columns than the lookup has.
    Inconsistent,
}

/// The first of the tables that has all the queried columns.
pub open spec fn first_table(tables: Seq<TableData>, q: Seq<Query>) -> Option<int>
    decreases tables.len(),
{
    if tables.len() == 0 {
        None
    } else {
        match first_table(tables.drop_last(), q) {
            Some(i) => Some(i),
            None => if missing_columns(tables.last(), q).len() == 0 {
                Some(tables.len() - 1)
            } else {
                None
            },
        }
    }
}

/// The first table found is one of the tables, and has all the columns.
proof fn lemma_first_table(tables: Seq<TableData>, q: Seq<Query>)
    ensures
        first_table(tables, q) matches Some(i) ==> 0 <= i < tables.len() && missing_columns(tables[i], q).len() == 0,
    decreases tables.len(),
{
    if tables.len() > 0 {
        lemma_first_table(tables.drop_last(), q);
    }
}

/// The rows of the values of the first table that has all the queried columns.
pub fn find_table(tables: &Vec<TableData>, q: &Vec<Query>) -> (r: Result<Vec<Vec<Felt>>, TableLookupError>)
    requires
        q@.len() > 0,
        forall|t: int| 0 <= t < tables@.len() && missing_columns(#[trigger] tables@[t], q@).len() == 0 ==> tables@[t].rows_fit(q@),
    ensures
        match first_table(tables@, q@) {
            None => r == Err::<Vec<Vec<Felt>>, TableLookupError>(TableLookupError::NoTable),
            Some(i) => match tables@[i].rows_of(q@) {
                Ok(rows) => r is Ok && felt_rows_view(r->Ok_0@) == rows,
                Err(e) => r == Err::<Vec<Vec<Felt>>, TableLookupError>(TableLookupError::Table(e)),
            },
        },
{
    let mut i: usize = 0;
    while i < tables.len()
        invariant
            i <= tables@.len(),
            q@.len() > 0,
            forall|t: int| 0 <= t < tables@.len() && missing_columns(#[trigger] tables@[t], q@).len() == 0 ==> tables@[t].rows_fit(q@),
            first_table(tables@.take(i as int), q@) is None,
        decreases tables@.len() - i,
    {
        proof {
            assert(tables@.take(i + 1).drop_last() =~= tables@.take(i as int));
            assert(tables@.take(i + 1).last() == tables@[i as int]);
        }
        match tables[i].get_rows(q) {
            Some(Ok(rows)) => {
                proof {
                    lemma_first_table_prefix(tables@, q@, i + 1);
                }
                return Ok(rows);
            },
            Some(Err(e)) => {
                proof {
                    lemma_first_table_prefix(tables@, q@, i + 1);
                }
                return Err(TableLookupError::Table(e));
            },
            None => {},
        }
        i = i + 1;
    }
    proof {
        assert(tables@.take(i as int) =~= tables@);
    }
    Err(TableLookupError::NoTable)
}

/// Once a prefix of the tables has a table with the columns, so do all the tables.
proof fn lemma_first_table_prefix(tables: Seq<TableData>, q: Seq<Query>, n: int)
    requires
        0 <= n <= tables.len(),
        first_table(tables.take(n), q) is Some,
    ensures
        first_table(tables, q) == first_table(tables.take(n), q),
    decreases tables.len() - n,
{
    if n < tables.len() {
        assert(tables.take(n + 1).drop_last() =~= tables.take(n));
        lemma_first_table_prefix(tables, q, n + 1);
    } else {
        assert(tables.take(n) =~= tables);
    }
}

/// The rows of a lookup table: one per row of the table, each with the lookup's columns in
/// order and the values of the columns at that row.
pub open spec fn table_rows_match(rows: Seq<LookupTableRow<Felt>>, q: Seq<Query>, cols: Seq<Seq<nat>>) -> bool {
    &&& rows.len() == cols[0].len()
    &&& forall|j: int| 0 <= j < rows.len() ==> {
        &&& (#[trigger] rows[j]).spec_columns() == q.map_values(|x: Query| x.column_index)
        &&& felts_view(rows[j].spec_values()) == Seq::new(q.len(), |c: int| cols[c][j])
    }
}

/// Every table that has all the queried columns holds its single fills within its rows (see
/// [`TableData::rows_fit`]).
pub open spec fn tables_fit(tables: Seq<TableData>, q: Seq<Query>) -> bool {
    forall|t: int| 0 <= t < tables.len() && missing_columns(#[trigger] tables[t], q).len() == 0 ==> tables[t].rows_fit(q)
}

/// What looking up the rows of a lookup's table gives, from the queries of the lookup's table
/// (or why they are not queries): the error of the queries, no table, the error of the first
/// table with the columns, or its rows.
pub open spec fn lookup_rows(
    tables: Seq<TableData>,
    tc: Result<Seq<Query>, LookupError>,
    r: Result<Vec<LookupTableRow<Felt>>, TableLookupError>,
) -> bool {
    match tc {
        Err(e) => r == Err::<Vec<LookupTableRow<Felt>>, TableLookupError>(TableLookupError::Lookup(e)),
        Ok(q) => match first_table(tables, q) {
            None => r == Err::<Vec<LookupTableRow<Felt>>, TableLookupError>(TableLookupError::NoTable),
            Some(i) => if q.len() == 0 {
                r == Err::<Vec<LookupTableRow<Felt>>, TableLookupError>(TableLookupError::Table(TableError::NoFills))
            } else {
                match tables[i].rows_of(q) {
                    Err(e) => r == Err::<Vec<LookupTableRow<Felt>>, TableLookupError>(TableLookupError::Table(e)),
                    Ok(cols) => r is Ok && table_rows_match(r->Ok_0@, q, cols),
                }
            },
        },
    }
}

/// Whether every table that has all the queried columns holds its single fills within its
/// rows, as [`tables_fit`] says.
pub fn all_tables_fit(tables: &Vec<TableData>, q: &Vec<Query>) -> (r: bool)
    requires
        q@.len() > 0,
    ensures
        r == tables_fit(tables@, q@),
{
    let mut i: usize = 0;
    while i < tables.len()
        invariant
            i <= tables@.len(),
            q@.len() > 0,
            forall|t: int| 0 <= t < i && missing_columns(#[trigger] tables@[t], q@).len() == 0 ==> tables@[t].rows_fit(q@),
        decreases tables@.len() - i,
    {
        match tables[i].check_columns(q) {
            regions::table::ColumnMatch::Missing(_) => {},
            regions::table::ColumnMatch::Contained => {
                proof {
                    regions::table::lemma_no_missing(tables@[i as int], q@);
                }
                if !tables[i].fits(q) {
                    return false;
                }
            },
        }
        i = i + 1;
    }
    true
}

/// The rows of the lookup's table, as [`tables_for_lookup`] gives them, once it is checked
/// that every table with the lookup's columns holds its single fills within its rows; an error
/// otherwise.
pub fn checked_tables_for_lookup(tables: &Vec<TableData>, l: &Lookup<Expression>) -> (r: Result<
    Result<Vec<LookupTableRow<Felt>>, TableLookupError>,
    RowsRequestError,
>)
    ensures
        r is Err <==> (table_cells(l.spec_table()) is Ok && table_cells(l.spec_table())->Ok_0.len() > 0 && !tables_fit(
            tables@, table_cells(l.spec_table())->Ok_0)),
        r is Err ==> r == Err::<Result<Vec<LookupTableRow<Felt>>, TableLookupError>, RowsRequestError>(RowsRequestError::RowsOutOfRange),
        r matches Ok(x) ==> lookup_rows(tables@, table_cells(l.spec_table()), x),
{
    match l.table_queries() {
        Ok(q) => {
            if q.len() > 0 && !all_tables_fit(tables, &q) {
                return Err(RowsRequestError::RowsOutOfRange);
            }
        },
        Err(_) => {},
    }
    Ok(tables_for_lookup(tables, l))
}

/// Returns the list of rows of the table the lookup refers to: the first table that has all
/// the columns of the lookup gives their values, turned from columns into rows.
pub fn tables_for_lookup(tables: &Vec<TableData>, l: &Lookup<Expression>) -> (r: Result<Vec<LookupTableRow<Felt>>, TableLookupError>)
    requires
        table_cells(l.spec_table()) is Ok && table_cells(l.spec_table())->Ok_0.len() > 0 ==> tables_fit(tables@,
            table_cells(l.spec_table())->Ok_0),
    ensures
        lookup_rows(tables@, table_cells(l.spec_table()), r),
{
    let q = match l.table_queries() {
        Ok(q) => q,
        Err(e) => {
            return Err(TableLookupError::Lookup(e));
        },
    };
    if q.len() == 0 {
        proof {
            lemma_first_table_empty(tables@, q@);
        }
        if tables.len() > 0 {
            return Err(TableLookupError::Table(TableError::NoFills));
        } else {
            return Err(TableLookupError::NoTable);
        }
    }
    let mut columns: Vec<usize> = Vec::new();
    let mut k: usize = 0;
    while k < q.len()
        invariant
            k <= q@.len(),
            columns@ == q@.take(k as int).map_values(|x: Query| x.column_index),
        decreases q@.len() - k,
    {
        columns.push(q[k].column_index);
        k = k + 1;
        proof {
            assert(q@.take(k as int).map_values(|x: Query| x.column_index) =~= q@.take(k - 1).map_values(
                |x: Query| x.column_index,
            ).push(q@[k - 1].column_index));
        }
    }
    proof {
        assert(q@.take(k as int) =~= q@);
    }
    let table = find_table(tables, &q)?;
    let ghost i = first_table(tables@, q@)->0;
    let ghost cols = felt_rows_view(table@);
    proof {
        lemma_first_table(tables@, q@);
        lemma_rows_shape(tables@[i], q@);
    }
    if q.len() != table.len() {
        return Err(TableLookupError::Inconsistent);
    }
    proof {
        assert(cols.len() == q@.len());
        assert forall|c: int| 0 <= c < table@.len() implies (#[trigger] table@[c])@.len() == table@[0]@.len() by {
            assert(cols[c].len() == cols[0].len());
        }
    }
    let nrows = table[0].len();
    let mut out: Vec<LookupTableRow<Felt>> = Vec::new();
    let mut j: usize = 0;
    while j < nrows
        invariant
            j <= nrows,
            nrows == table@[0]@.len(),
            table@.len() == q@.len(),
            q@.len() > 0,
            cols == felt_rows_view(table@),
            forall|c: int| 0 <= c < table@.len() ==> (#[trigger] table@[c])@.len() == nrows,
            columns@ == q@.map_values(|x: Query| x.column_index),
            out@.len() == j,
            forall|jj: int| 0 <= jj < j ==> {
                &&& (#[trigger] out@[jj]).spec_columns() == q@.map_values(|x: Query| x.column_index)
                &&& felts_view(out@[jj].spec_values()) == Seq::new(q@.len(), |c: int| cols[c][jj])
            },
        decreases nrows - j,
    {
        let mut row: Vec<Felt> = Vec::new();
        let mut c: usize = 0;
        while c < table.len()
            invariant
                c <= table@.len(),
                j < nrows,
                cols == felt_rows_view(table@),
                forall|cc: int| 0 <= cc < table@.len() ==> (#[trigger] table@[cc])@.len() == nrows,
                row@.len() == c,
                forall|cc: int| 0 <= cc < c ==> (#[trigger] row@[cc])@ == cols[cc][j as int],
            decreases table@.len() - c,
        {
            assert(table@[c as int]@.len() == nrows);
            row.push(table[c][j].duplicate());
            c = c + 1;
        }
        let ghost values = row@;
        out.push(LookupTableRow::new(columns.as_slice(), row));
        proof {
            assert(felts_view(values) =~= Seq::new(q@.len(), |cc: int| cols[cc][j as int]));
        }
        j = j + 1;
    }
    proof {
        assert(cols[0].len() == nrows);
    }
    Ok(out)
}

/// With no queried column, every table has all of them, so the first table is found if there
/// is a table.
proof fn lemma_first_table_empty(tables: Seq<TableData>, q: Seq<Query>)
    requires
        q.len() == 0,
    ensures
        tables.len() > 0 ==> first_table(tables, q) is Some,
        tables.len() == 0 ==> first_table(tables, q) is None,
    decreases tables.len(),
{
    if tables.len() > 0 {
        lemma_first_table_empty(tables.drop_last(), q);
        assert(missing_columns(tables.last(), q) =~= Seq::<Query>::empty());
    }
}

} // verus!

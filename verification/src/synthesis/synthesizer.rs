//! What a circuit's synthesis records as it runs: its regions, the values of its fixed cells,
//! the copies between its cells and the columns of its tables.
use vstd::prelude::*;
use std::collections::HashSet;
use crate::felt::Felt;
use crate::poly::Selector;
use crate::resolvers::{Advice, Fixed};
use crate::table::{Any, Column};
use super::constraint::{ArgModel, EqConstraint, EqConstraintGraph, ends};
use super::regions::{RegionEdit, Regions, applied, pushed};
use super::regions::fixed::{FixedData, assign_step, fill_step};
use super::regions::table::TableData;
use super::{BuildError, add_fixed_to_const_constraints, fill_tables, fixed_vertices_known, table_of_columns, value_edge};

verus! {

broadcast use vstd::std_specs::hash::group_hash_axioms;

/// The indices of the columns of each table.
pub open spec fn column_indices(tables: Seq<Vec<Column<Fixed>>>, i: int) -> Set<usize> {
    Set::new(|c: usize| exists|j: int| 0 <= j < tables[i]@.len() && #[trigger] tables[i]@[j].index == c)
}

/// The set of the column indices of each table, in order.
fn column_sets(tables: &Vec<Vec<Column<Fixed>>>) -> (r: Vec<HashSet<usize>>)
    ensures
        r@.len() == tables@.len(),
        forall|i: int| 0 <= i < r@.len() ==> (#[trigger] r@[i])@ == column_indices(tables@, i),
{
    let mut out: Vec<HashSet<usize>> = Vec::new();
    let mut i: usize = 0;
    while i < tables.len()
        invariant
            i <= tables@.len(),
            out@.len() == i,
            forall|k: int| 0 <= k < i ==> (#[trigger] out@[k])@ == column_indices(tables@, k),
        decreases tables@.len() - i,
    {
        let cols = &tables[i];
        let mut set: HashSet<usize> = HashSet::new();
        let mut j: usize = 0;
        while j < cols.len()
            invariant
                j <= cols@.len(),
                cols == tables@[i as int],
                forall|c: usize| set@.contains(c) <==> exists|l: int| 0 <= l < j && #[trigger] cols@[l].index == c,
            decreases cols@.len() - j,
        {
            set.insert(cols[j].index);
            proof {
                assert forall|c: usize| set@.contains(c) <==> exists|l: int| 0 <= l < j + 1 && #[trigger] cols@[l].index == c by {
                    if set@.contains(c) && c != cols@[j as int].index {
                        let l = choose|l: int| 0 <= l < j && #[trigger] cols@[l].index == c;
                        assert(0 <= l < j + 1);
                    }
                    if c == cols@[j as int].index {
                        assert(cols@[j as int].index == c);
                    }
                }
            }
            j = j + 1;
        }
        proof {
            assert(set@ =~= column_indices(tables@, i as int));
        }
        out.push(set);
        i = i + 1;
    }
    out
}

/// `b` is the graph `a` with the edge added, as [`EqConstraintGraph::add`] says: an edge it
/// already holds, in either direction, is not added twice.
pub open spec fn edge_added(a: EqConstraintGraph, b: EqConstraintGraph, edge: EqConstraint) -> bool {
    &&& b.has_edge(ends(edge).0, ends(edge).1)
    &&& a.has_edge(ends(edge).0, ends(edge).1) ==> b.edge_models() == a.edge_models()
    &&& !a.has_edge(ends(edge).0, ends(edge).1) ==> b.edge_models() == a.edge_models().push(ends(edge))
    &&& forall|v: ArgModel| b.vertex_models().contains(v) <==> (a.vertex_models().contains(v) || v == ends(edge).0
        || v == ends(edge).1)
}

/// Records the synthesis of a circuit: the regions it enters and leaves, what it assigns in
/// them, the copies between cells, and the fixed columns of the regions that are tables.
#[derive(Debug)]
pub struct Synthesizer {
    id: usize,
    regions: Regions,
    fixed: FixedData,
    eq_constraints: EqConstraintGraph,
    tables: Vec<Vec<Column<Fixed>>>,
    next_index: usize,
}

impl Synthesizer {
    /// The identifier of the circuit.
    pub closed spec fn spec_id(&self) -> usize {
        self.id
    }

    /// The regions recorded.
    pub closed spec fn spec_regions(&self) -> Regions {
        self.regions
    }

    /// The values of the fixed cells.
    pub closed spec fn spec_fixed(&self) -> FixedData {
        self.fixed
    }

    /// The copies between cells.
    pub closed spec fn spec_constraints(&self) -> EqConstraintGraph {
        self.eq_constraints
    }

    /// The fixed columns of each region that became a table, in order.
    pub closed spec fn spec_tables(&self) -> Seq<Vec<Column<Fixed>>> {
        self.tables@
    }

    /// The index that the next new region takes.
    pub closed spec fn spec_next_index(&self) -> usize {
        self.next_index
    }

    /// A synthesis of the circuit with the identifier that has recorded nothing yet.
    pub fn new(id: usize) -> (r: Self)
        ensures
            r.spec_id() == id,
            r.spec_regions().committed().len() == 0,
            r.spec_regions().spec_current() is None,
            !r.spec_regions().spec_last_is_table(),
            r.spec_fixed().spec_columns() == Set::<usize>::empty(),
            forall|c: usize, row: usize| r.spec_fixed().assigned(c, row) is None,
            forall|c: usize| r.spec_fixed().fills(c).len() == 0,
            r.spec_constraints().edge_models().len() == 0,
            r.spec_constraints().vertex_models().len() == 0,
            r.spec_tables().len() == 0,
            r.spec_next_index() == 0,
    {
        Synthesizer {
            id,
            regions: Regions::new(),
            fixed: FixedData::new(),
            eq_constraints: EqConstraintGraph::new(),
            tables: Vec::new(),
            next_index: 0,
        }
    }

    /// Enters a new region of the circuit (see [`Regions::push`]). No region may be entered
    /// already.
    pub fn enter_region(&mut self, region_name: String)
        requires
            old(self).spec_regions().spec_current() is None,
            old(self).spec_next_index() < usize::MAX,
        ensures
            pushed(old(self).spec_regions(), final(self).spec_regions(), region_name@, old(self).spec_next_index(),
                final(self).spec_next_index(), old(self).spec_tables(), final(self).spec_tables()),
            final(self).spec_id() == old(self).spec_id(),
            final(self).spec_fixed() == old(self).spec_fixed(),
            final(self).spec_constraints() == old(self).spec_constraints(),
    {
        self.regions.push(region_name, &mut self.next_index, &mut self.tables);
    }

    /// Exits the current region, which joins the regions recorded. A region must be entered.
    pub fn exit_region(&mut self)
        requires
            old(self).spec_regions().spec_current() is Some,
        ensures
            final(self).spec_regions().committed() == old(self).spec_regions().committed().push(
                old(self).spec_regions().spec_current()->0),
            final(self).spec_regions().spec_current() is None,
            final(self).spec_regions().spec_last_is_table() == old(self).spec_regions().spec_last_is_table(),
            final(self).spec_id() == old(self).spec_id(),
            final(self).spec_fixed() == old(self).spec_fixed(),
            final(self).spec_constraints() == old(self).spec_constraints(),
            final(self).spec_tables() == old(self).spec_tables(),
            final(self).spec_next_index() == old(self).spec_next_index(),
    {
        self.regions.commit();
    }

    /// Marks the selector as enabled at the row of the current region, if there is one.
    pub fn enable_selector(&mut self, selector: Selector, row: usize)
        ensures
            applied(old(self).spec_regions(), final(self).spec_regions(), RegionEdit::EnableSelector(selector, row)),
            final(self).spec_id() == old(self).spec_id(),
            final(self).spec_fixed() == old(self).spec_fixed(),
            final(self).spec_constraints() == old(self).spec_constraints(),
            final(self).spec_tables() == old(self).spec_tables(),
            final(self).spec_next_index() == old(self).spec_next_index(),
    {
        let _ = self.regions.edit(RegionEdit::EnableSelector(selector, row));
    }

    /// Records that the circuit assigned the advice cell at the row: the current region, if
    /// there is one, takes in the column and the row.
    pub fn on_advice_assigned(&mut self, advice: Column<Advice>, row: usize)
        ensures
            applied(old(self).spec_regions(), final(self).spec_regions(), RegionEdit::UpdateExtent(
                Column { index: advice.index, column_type: Any::Advice }, row)),
            final(self).spec_id() == old(self).spec_id(),
            final(self).spec_fixed() == old(self).spec_fixed(),
            final(self).spec_constraints() == old(self).spec_constraints(),
            final(self).spec_tables() == old(self).spec_tables(),
            final(self).spec_next_index() == old(self).spec_next_index(),
    {
        let _ = self.regions.edit(RegionEdit::UpdateExtent(advice.erased(), row));
    }

    /// Records that the circuit assigned the value to the fixed cell at the row: the current
    /// region, if there is one, takes in the column and the row (the assignment may come
    /// outside any region), and the cell has the value.
    pub fn on_fixed_assigned(&mut self, fixed: Column<Fixed>, row: usize, value: Felt)
        ensures
            applied(old(self).spec_regions(), final(self).spec_regions(), RegionEdit::UpdateExtent(
                Column { index: fixed.index, column_type: Any::Fixed }, row)),
            assign_step(old(self).spec_fixed(), final(self).spec_fixed(), fixed.index, row, Some(value@)),
            final(self).spec_id() == old(self).spec_id(),
            final(self).spec_constraints() == old(self).spec_constraints(),
            final(self).spec_tables() == old(self).spec_tables(),
            final(self).spec_next_index() == old(self).spec_next_index(),
    {
        let _ = self.regions.edit(RegionEdit::UpdateExtent(fixed.erased(), row));
        self.fixed.assign_fixed(fixed, row, Some(value));
    }

    /// Records a copy constraint between the two cells, which must differ.
    pub fn copy(&mut self, from: Column<Any>, from_row: usize, to: Column<Any>, to_row: usize)
        requires
            from != to || from_row != to_row,
        ensures
            edge_added(old(self).spec_constraints(), final(self).spec_constraints(), EqConstraint::AnyToAny(
                from, from_row, to, to_row)),
            final(self).spec_id() == old(self).spec_id(),
            final(self).spec_regions() == old(self).spec_regions(),
            final(self).spec_fixed() == old(self).spec_fixed(),
            final(self).spec_tables() == old(self).spec_tables(),
            final(self).spec_next_index() == old(self).spec_next_index(),
    {
        self.eq_constraints.add(EqConstraint::AnyToAny(from, from_row, to, to_row));
    }

    /// Records that the fixed column has the value from the row on; the current region, if
    /// there is one, takes in the column and the row.
    pub fn fill_from_row(&mut self, column: Column<Fixed>, row: usize, value: Felt)
        ensures
            fill_step(old(self).spec_fixed(), final(self).spec_fixed(), column.index, row, Some(value@)),
            applied(old(self).spec_regions(), final(self).spec_regions(), RegionEdit::UpdateExtent(
                Column { index: column.index, column_type: Any::Fixed }, row)),
            final(self).spec_id() == old(self).spec_id(),
            final(self).spec_constraints() == old(self).spec_constraints(),
            final(self).spec_tables() == old(self).spec_tables(),
            final(self).spec_next_index() == old(self).spec_next_index(),
    {
        self.fixed.blanket_fill(column, row, Some(value));
        let _ = self.regions.edit(RegionEdit::UpdateExtent(column.erased(), row));
    }

    /// Records that the fixed column has the value from the row on, and marks the last region
    /// as a table. No region may be entered.
    pub fn fill_table(&mut self, column: Column<Fixed>, row: usize, value: Felt)
        requires
            old(self).spec_regions().spec_current() is None,
        ensures
            fill_step(old(self).spec_fixed(), final(self).spec_fixed(), column.index, row, Some(value@)),
            final(self).spec_regions().committed() == old(self).spec_regions().committed(),
            final(self).spec_regions().spec_current() is None,
            final(self).spec_regions().spec_last_is_table(),
            final(self).spec_id() == old(self).spec_id(),
            final(self).spec_constraints() == old(self).spec_constraints(),
            final(self).spec_tables() == old(self).spec_tables(),
            final(self).spec_next_index() == old(self).spec_next_index(),
    {
        self.fill_from_row(column, row, value);
        self.mark_region_as_table();
    }

    /// Marks the last region as a table: it leaves the regions for the tables when the next
    /// region is entered. No region may be entered.
    pub fn mark_region_as_table(&mut self)
        requires
            old(self).spec_regions().spec_current() is None,
        ensures
            final(self).spec_regions().committed() == old(self).spec_regions().committed(),
            final(self).spec_regions().spec_current() is None,
            final(self).spec_regions().spec_last_is_table(),
            final(self).spec_id() == old(self).spec_id(),
            final(self).spec_fixed() == old(self).spec_fixed(),
            final(self).spec_constraints() == old(self).spec_constraints(),
            final(self).spec_tables() == old(self).spec_tables(),
            final(self).spec_next_index() == old(self).spec_next_index(),
    {
        self.regions.mark_region();
    }

    /// Opens a namespace in the current region, if there is one.
    pub fn push_namespace(&mut self, name: String)
        ensures
            applied(old(self).spec_regions(), final(self).spec_regions(), RegionEdit::PushNamespace(name)),
            final(self).spec_id() == old(self).spec_id(),
            final(self).spec_fixed() == old(self).spec_fixed(),
            final(self).spec_constraints() == old(self).spec_constraints(),
            final(self).spec_tables() == old(self).spec_tables(),
            final(self).spec_next_index() == old(self).spec_next_index(),
    {
        let _ = self.regions.edit(RegionEdit::PushNamespace(name));
    }

    /// Closes a namespace of the current region, if there is one: the innermost one with the
    /// name, or the innermost one (see [`RegionEdit::PopNamespace`]).
    pub fn pop_namespace(&mut self, name: Option<String>)
        ensures
            applied(old(self).spec_regions(), final(self).spec_regions(), RegionEdit::PopNamespace(name)),
            final(self).spec_id() == old(self).spec_id(),
            final(self).spec_fixed() == old(self).spec_fixed(),
            final(self).spec_constraints() == old(self).spec_constraints(),
            final(self).spec_tables() == old(self).spec_tables(),
            final(self).spec_next_index() == old(self).spec_next_index(),
    {
        let _ = self.regions.edit(RegionEdit::PopNamespace(name));
    }

    /// The identifier of the circuit.
    pub fn id(&self) -> (r: usize)
        ensures
            r == self.spec_id(),
    {
        self.id
    }

    /// The regions recorded.
    pub fn regions(&self) -> (r: &Regions)
        ensures
            *r == self.spec_regions(),
    {
        &self.regions
    }

    /// The values of the fixed cells.
    pub fn fixed(&self) -> (r: &FixedData)
        ensures
            *r == self.spec_fixed(),
    {
        &self.fixed
    }

    /// The copies between cells.
    pub fn constraints(&self) -> (r: &EqConstraintGraph)
        ensures
            *r == self.spec_constraints(),
    {
        &self.eq_constraints
    }

    /// The fixed columns of each region that became a table.
    pub fn tables(&self) -> (r: &Vec<Vec<Column<Fixed>>>)
        ensures
            r@ == self.spec_tables(),
    {
        &self.tables
    }

    /// What the synthesis recorded, once complete: the copies, with an edge from each fixed
    /// cell among their vertices to its value (see [`add_fixed_to_const_constraints`]); the
    /// tables, each from the values of its columns (see [`fill_tables`]); and the values of
    /// the fixed cells. A fixed cell of a copy whose value is unknown is an error, checked
    /// first; a table column that no fixed cell was assigned in is an error too.
    pub fn build(self) -> (r: Result<(EqConstraintGraph, Vec<TableData>, FixedData), BuildError>)
        ensures
            !fixed_vertices_known(self.spec_constraints().vertex_models(), self.spec_fixed())
                ==> r == Err::<(EqConstraintGraph, Vec<TableData>, FixedData), BuildError>(BuildError::UnknownFixedValue),
            fixed_vertices_known(self.spec_constraints().vertex_models(), self.spec_fixed()) ==> ((exists|i: int|
                0 <= i < self.spec_tables().len() && !column_indices(self.spec_tables(), i).subset_of(self.spec_fixed().spec_columns()))
                <==> r == Err::<(EqConstraintGraph, Vec<TableData>, FixedData), BuildError>(BuildError::MissingTableColumns)),
            r is Err ==> r == Err::<(EqConstraintGraph, Vec<TableData>, FixedData), BuildError>(BuildError::UnknownFixedValue)
                || r == Err::<(EqConstraintGraph, Vec<TableData>, FixedData), BuildError>(BuildError::MissingTableColumns),
            r matches Ok((g, ts, f)) ==> {
                &&& f == self.spec_fixed()
                &&& forall|a: ArgModel, b: ArgModel| self.spec_constraints().has_edge(a, b) ==> g.has_edge(a, b)
                &&& forall|i: int| 0 <= i < self.spec_constraints().vertex_models().len() && (#[trigger] value_edge(
                    self.spec_fixed(), self.spec_constraints().vertex_models()[i])) is Some ==> g.has_edge(
                    (value_edge(self.spec_fixed(), self.spec_constraints().vertex_models()[i])->0).0,
                    (value_edge(self.spec_fixed(), self.spec_constraints().vertex_models()[i])->0).1)
                &&& forall|k: int| 0 <= k < g.edge_models().len() ==> self.spec_constraints().edge_models().contains(
                    #[trigger] g.edge_models()[k]) || exists|i: int| 0 <= i < self.spec_constraints().vertex_models().len()
                    && #[trigger] value_edge(self.spec_fixed(), self.spec_constraints().vertex_models()[i]) == Some(g.edge_models()[k])
                &&& ts@.len() == self.spec_tables().len()
                &&& forall|i: int| 0 <= i < ts@.len() ==> table_of_columns(#[trigger] ts@[i], column_indices(self.spec_tables(), i), f)
            },
    {
        let mut eq_constraints = self.eq_constraints;
        match add_fixed_to_const_constraints(&mut eq_constraints, &self.fixed) {
            Ok(()) => {},
            Err(e) => {
                return Err(e);
            },
        }
        let sets = column_sets(&self.tables);
        let ghost sets_view = sets@;
        let tables = match fill_tables(sets, &self.fixed) {
            Ok(t) => {
                proof {
                    assert forall|i: int| 0 <= i < self.spec_tables().len() implies column_indices(self.spec_tables(), i).subset_of(
                        self.spec_fixed().spec_columns()) by {
                        assert(sets_view[i]@ == column_indices(self.spec_tables(), i));
                    }
                }
                t
            },
            Err(e) => {
                proof {
                    let i = choose|i: int| 0 <= i < sets_view.len() && !(#[trigger] sets_view[i])@.subset_of(self.spec_fixed().spec_columns());
                    assert(sets_view[i]@ == column_indices(self.spec_tables(), i));
                }
                return Err(e);
            },
        };
        Ok((eq_constraints, tables, self.fixed))
    }
}

} // verus!

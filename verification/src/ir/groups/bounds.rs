//! The bounds of a group: which cells lie in its regions or are its inputs and outputs.
use vstd::prelude::*;
use crate::resolvers::Fixed;
use crate::synthesis::constraint::EqConstraint;
use crate::synthesis::groups::{Group, GroupCell, RegionByIndex, lookup};
use crate::synthesis::regions::RegionIndex;
use crate::synthesis::regions::data::{has_column, same_column};
use crate::table::{Any, Column};

verus! {

/// Some region of the group has the column and, when a row is given, spans it.
pub open spec fn in_regions(g: Group, col: Column<Any>, row: Option<usize>) -> bool {
    exists|i: int| 0 <= i < g.regions@.len() && has_column(g.regions@[i].columns@, col) && match row {
        None => true,
        Some(r) => g.regions@[i].rows matches Some((s, e)) && s <= r <= e,
    }
}

/// The region of the given index belongs to the group.
pub open spec fn group_has_region(g: Group, idx: RegionIndex) -> bool {
    exists|i: int| 0 <= i < g.regions@.len() && g.regions@[i].index == idx
}

/// The inputs and outputs of the group, followed by the extra cells.
pub open spec fn all_cells(g: Group, extra: Option<Seq<GroupCell>>) -> Seq<GroupCell> {
    g.inputs@ + g.outputs@ + match extra {
        Some(e) => e,
        None => Seq::<GroupCell>::empty(),
    }
}

/// The absolute row of an assigned cell, when the first row of its region is known.
pub open spec fn abs_row(m: Seq<(RegionIndex, Option<usize>)>, idx: RegionIndex, offset: usize) -> Option<int> {
    match lookup(m, idx) {
        Some(Some(start)) => Some(start + offset),
        _ => None,
    }
}

/// The cell as an input or output outside the group's regions: an assigned cell of a region
/// that is not the group's, at its absolute row, or an instance or advice cell.
pub open spec fn foreign_entry(c: GroupCell, g: Group, m: Seq<(RegionIndex, Option<usize>)>) -> Option<(Column<Any>, int)> {
    match c {
        GroupCell::Assigned(cell) => if !group_has_region(g, cell.region_index) {
            match abs_row(m, cell.region_index, cell.row_offset) {
                Some(r) => Some((cell.column, r)),
                None => None,
            }
        } else {
            None
        },
        GroupCell::InstanceIO((col, row)) => Some((Column { index: col.index, column_type: Any::Instance }, row as int)),
        GroupCell::AdviceIO((col, row)) => Some((Column { index: col.index, column_type: Any::Advice }, row as int)),
    }
}

/// The cell as an input or output inside the group's regions: an assigned cell of one of its
/// regions, at its absolute row.
pub open spec fn io_entry(c: GroupCell, g: Group, m: Seq<(RegionIndex, Option<usize>)>) -> Option<(Column<Any>, int)> {
    match c {
        GroupCell::Assigned(cell) => if group_has_region(g, cell.region_index) {
            match abs_row(m, cell.region_index, cell.row_offset) {
                Some(r) => Some((cell.column, r)),
                None => None,
            }
        } else {
            None
        },
        _ => None,
    }
}

/// Every assigned cell among the cells has its region in the map, and its absolute row fits
/// in a `usize`.
pub open spec fn rows_known(cells: Seq<GroupCell>, m: Seq<(RegionIndex, Option<usize>)>) -> bool {
    forall|i: int| 0 <= i < cells.len() ==> (#[trigger] cells[i] matches GroupCell::Assigned(cell) ==> lookup(m, cell.region_index) is Some
        && (abs_row(m, cell.region_index, cell.row_offset) matches Some(r) ==> r <= usize::MAX))
}

/// The entry of the cell among the inputs and outputs outside (`foreign`) or inside the
/// group's regions.
pub open spec fn entry_of(c: GroupCell, g: Group, m: Seq<(RegionIndex, Option<usize>)>, foreign: bool) -> Option<(Column<Any>, int)> {
    if foreign {
        foreign_entry(c, g, m)
    } else {
        io_entry(c, g, m)
    }
}

/// Some of the first `n` cells has the entry `(col, row)`.
pub open spec fn produces(cells: Seq<GroupCell>, n: int, g: Group, m: Seq<(RegionIndex, Option<usize>)>, foreign: bool, col: Column<Any>, row: usize) -> bool {
    exists|k: int| 0 <= k < n && #[trigger] entry_of(cells[k], g, m, foreign) == Some((col, row as int))
}

/// The entries of a concatenation are those of its parts.
proof fn lemma_produces_concat(a: Seq<GroupCell>, b: Seq<GroupCell>, g: Group, m: Seq<(RegionIndex, Option<usize>)>, foreign: bool, col: Column<Any>, row: usize)
    ensures
        produces(a + b, (a + b).len() as int, g, m, foreign, col, row) <==> (produces(a, a.len() as int, g, m, foreign, col, row)
            || produces(b, b.len() as int, g, m, foreign, col, row)),
{
    let ab = a + b;
    if produces(ab, ab.len() as int, g, m, foreign, col, row) {
        let k = choose|k: int| 0 <= k < ab.len() && #[trigger] entry_of(ab[k], g, m, foreign) == Some((col, row as int));
        if k < a.len() {
            assert(ab[k] == a[k]);
        } else {
            assert(ab[k] == b[k - a.len()]);
        }
    }
    if produces(a, a.len() as int, g, m, foreign, col, row) {
        let k = choose|k: int| 0 <= k < a.len() && #[trigger] entry_of(a[k], g, m, foreign) == Some((col, row as int));
        assert(ab[k] == a[k]);
    }
    if produces(b, b.len() as int, g, m, foreign, col, row) {
        let k = choose|k: int| 0 <= k < b.len() && #[trigger] entry_of(b[k], g, m, foreign) == Some((col, row as int));
        assert(ab[a.len() + k] == b[k]);
    }
}

/// Where the cell lies relative to the bounds of the group, the given cells being its inputs
/// and outputs: outside, an input or output outside its regions, one inside them, or within
/// its regions.
pub open spec fn bound_of(g: Group, m: Seq<(RegionIndex, Option<usize>)>, cells: Seq<GroupCell>, col: Column<Any>, row: usize) -> Bound {
    let foreign = produces(cells, cells.len() as int, g, m, true, col, row);
    let io = produces(cells, cells.len() as int, g, m, false, col, row);
    if !(in_regions(g, col, Some(row)) || foreign) {
        Bound::Outside
    } else if foreign {
        Bound::ForeignIO
    } else if io {
        Bound::IO
    } else {
        Bound::Within
    }
}

/// Where a cell lies relative to the bounds of a group.
#[derive(Debug, Clone, Copy, PartialEq, Eq, Structural)]
pub enum Bound {
    /// In the regions of the group, and not an input or output.
    Within,
    /// An input or output in the regions of the group.
    IO,
    /// An input or output outside the regions of the group.
    ForeignIO,
    /// Outside the group.
    Outside,
}

/// Result of checking a constraint against the bounds of a group.
#[derive(Debug)]
pub enum EqConstraintCheck {
    /// Where each of the two cells lies, with the cells.
    AnyToAny(Bound, (Column<Any>, usize), Bound, (Column<Any>, usize)),
    /// Whether the fixed column is in the regions of the group.
    FixedToConst(Bound),
}

/// Can check if a cell is within the bounds of a group.
#[derive(Debug)]
pub struct GroupBounds<'a> {
    group: &'a Group,
    foreign_io: Vec<(Column<Any>, usize)>,
    io: Vec<(Column<Any>, usize)>,
}

/// Whether the list holds the cell.
fn has_cell(v: &Vec<(Column<Any>, usize)>, col: &Column<Any>, row: usize) -> (r: bool)
    ensures
        r == v@.contains((*col, row)),
{
    let mut i: usize = 0;
    while i < v.len()
        invariant
            i <= v@.len(),
            forall|k: int| 0 <= k < i ==> v@[k] != (*col, row),
        decreases v@.len() - i,
    {
        if same_column(&v[i].0, col) && v[i].1 == row {
            assert(v@[i as int] == (*col, row));
            return true;
        }
        i = i + 1;
    }
    false
}

/// Whether the group has the region.
fn has_region(g: &Group, idx: RegionIndex) -> (r: bool)
    ensures
        r == group_has_region(*g, idx),
{
    let mut i: usize = 0;
    while i < g.regions.len()
        invariant
            i <= g.regions@.len(),
            forall|k: int| 0 <= k < i ==> g.regions@[k].index != idx,
        decreases g.regions@.len() - i,
    {
        if g.regions[i].index.0 == idx.0 {
            return true;
        }
        i = i + 1;
    }
    false
}

/// Whether the column is in the list.
fn contains_column(cols: &Vec<Column<Any>>, col: &Column<Any>) -> (r: bool)
    ensures
        r == has_column(cols@, *col),
{
    let mut i: usize = 0;
    while i < cols.len()
        invariant
            i <= cols@.len(),
            forall|k: int| 0 <= k < i ==> cols@[k] != *col,
        decreases cols@.len() - i,
    {
        if same_column(&cols[i], col) {
            return true;
        }
        i = i + 1;
    }
    false
}

/// Whether some region of the group has the column and, when a row is given, spans it.
fn cell_within_bounds(g: &Group, col: Column<Any>, row: Option<usize>) -> (r: bool)
    ensures
        r == in_regions(*g, col, row),
{
    let mut i: usize = 0;
    while i < g.regions.len()
        invariant
            i <= g.regions@.len(),
            forall|k: int| 0 <= k < i ==> !(has_column(g.regions@[k].columns@, col) && match row {
                None => true,
                Some(r) => g.regions@[k].rows matches Some((s, e)) && s <= r <= e,
            }),
        decreases g.regions@.len() - i,
    {
        let region = &g.regions[i];
        let rows_ok = match row {
            None => true,
            Some(r) => match region.rows {
                Some((s, e)) => s <= r && r <= e,
                None => false,
            },
        };
        if rows_ok && contains_column(&region.columns, &col) {
            return true;
        }
        i = i + 1;
    }
    false
}

/// Appends the entries of the cells, as [`entry_of`] says, to `out`.
fn collect_entries(cells: &[GroupCell], g: &Group, m: &RegionByIndex, foreign: bool, out: &mut Vec<(Column<Any>, usize)>)
    requires
        rows_known(cells@, m.entries@),
    ensures
        forall|col: Column<Any>, row: usize| #[trigger] final(out)@.contains((col, row)) <==> (old(out)@.contains((col, row))
            || produces(cells@, cells@.len() as int, *g, m.entries@, foreign, col, row)),
{
    let ghost start = out@;
    let mut i: usize = 0;
    while i < cells.len()
        invariant
            i <= cells@.len(),
            rows_known(cells@, m.entries@),
            forall|col: Column<Any>, row: usize| #[trigger] out@.contains((col, row)) <==> (start.contains((col, row))
                || produces(cells@, i as int, *g, m.entries@, foreign, col, row)),
        decreases cells@.len() - i,
    {
        let c = cells[i];
        let ghost e = entry_of(c, *g, m.entries@, foreign);
        let entry: Option<(Column<Any>, usize)> = match c {
            GroupCell::Assigned(cell) => {
                let inside = has_region(g, cell.region_index);
                if inside != foreign {
                    match m.start_of(cell.region_index) {
                        Some(Some(start)) => {
                            assert(cells@[i as int] == c);
                            Some((cell.column, cell.row_offset + start))
                        },
                        _ => None,
                    }
                } else {
                    None
                }
            },
            GroupCell::InstanceIO((col, row)) => if foreign {
                Some((Column { index: col.index, column_type: Any::Instance }, row))
            } else {
                None
            },
            GroupCell::AdviceIO((col, row)) => if foreign {
                Some((Column { index: col.index, column_type: Any::Advice }, row))
            } else {
                None
            },
        };
        assert(cells@[i as int] == c);
        assert(entry matches Some(x) ==> e == Some((x.0, x.1 as int)));
        assert(entry is None ==> e is None);
        let ghost before = out@;
        match entry {
            Some(x) => {
                out.push(x);
            },
            None => {},
        }
        proof {
            assert forall|col: Column<Any>, row: usize| #[trigger] out@.contains((col, row)) <==> (start.contains((col, row))
                || produces(cells@, i + 1, *g, m.entries@, foreign, col, row)) by {
                if produces(cells@, i + 1, *g, m.entries@, foreign, col, row) {
                    let k = choose|k: int| 0 <= k < i + 1 && #[trigger] entry_of(cells@[k], *g, m.entries@, foreign) == Some((col, row as int));
                    if k == i {
                        assert(entry == Some((col, row)));
                        assert(out@[before.len() as int] == (col, row));
                    } else {
                        assert(produces(cells@, i as int, *g, m.entries@, foreign, col, row));
                        assert(before.contains((col, row)) || start.contains((col, row)));
                        if before.contains((col, row)) {
                            let j = choose|j: int| 0 <= j < before.len() && before[j] == (col, row);
                            assert(out@[j] == (col, row));
                        }
                    }
                }
                if start.contains((col, row)) {
                    assert(before.contains((col, row)));
                    let j = choose|j: int| 0 <= j < before.len() && before[j] == (col, row);
                    assert(out@[j] == (col, row));
                }
                if out@.contains((col, row)) {
                    let j = choose|j: int| 0 <= j < out@.len() && out@[j] == (col, row);
                    if j < before.len() {
                        assert(before[j] == (col, row));
                        assert(before.contains((col, row)));
                        if !start.contains((col, row)) {
                            let k = choose|k: int| 0 <= k < i && #[trigger] entry_of(cells@[k], *g, m.entries@, foreign) == Some((col, row as int));
                            assert(entry_of(cells@[k], *g, m.entries@, foreign) == Some((col, row as int)));
                        }
                    } else {
                        assert(entry == Some((col, row)));
                        assert(entry_of(cells@[i as int], *g, m.entries@, foreign) == Some((col, row as int)));
                    }
                }
            }
        }
        i = i + 1;
    }
}

impl<'a> GroupBounds<'a> {
    /// The group whose bounds these are.
    pub closed spec fn spec_group(&self) -> Group {
        *self.group
    }

    /// Whether the cell is an input or output outside the group's regions.
    pub closed spec fn spec_foreign_io(&self, col: Column<Any>, row: usize) -> bool {
        self.foreign_io@.contains((col, row))
    }

    /// Whether the cell is an input or output inside the group's regions.
    pub closed spec fn spec_io(&self, col: Column<Any>, row: usize) -> bool {
        self.io@.contains((col, row))
    }

    /// Whether the cell is in the bounds of the group.
    pub open spec fn spec_within(&self, col: Column<Any>, row: usize) -> bool {
        in_regions(self.spec_group(), col, Some(row)) || self.spec_foreign_io(col, row)
    }

    /// The bounds of a group, its inputs and outputs being its own.
    pub fn new(group: &'a Group, region_by_index: &RegionByIndex) -> (r: Self)
        requires
            rows_known(all_cells(*group, None), region_by_index.entries@),
        ensures
            r.spec_group() == *group,
            forall|col: Column<Any>, row: usize| r.spec_foreign_io(col, row) <==> produces(all_cells(*group, None),
                all_cells(*group, None).len() as int, *group, region_by_index.entries@, true, col, row),
            forall|col: Column<Any>, row: usize| r.spec_io(col, row) <==> produces(all_cells(*group, None),
                all_cells(*group, None).len() as int, *group, region_by_index.entries@, false, col, row),
    {
        Self::new_with_extra(group, region_by_index, None)
    }

    /// The bounds of a group, with extra cells counted as its inputs.
    pub fn new_with_extra(group: &'a Group, region_by_index: &RegionByIndex, extra_inputs: Option<&[GroupCell]>) -> (r: Self)
        requires
            rows_known(all_cells(*group, match extra_inputs { Some(e) => Some(e@), None => None }), region_by_index.entries@),
        ensures
            r.spec_group() == *group,
            ({
                let cells = all_cells(*group, match extra_inputs { Some(e) => Some(e@), None => None });
                &&& forall|col: Column<Any>, row: usize| r.spec_foreign_io(col, row) <==> produces(cells, cells.len() as int,
                    *group, region_by_index.entries@, true, col, row)
                &&& forall|col: Column<Any>, row: usize| r.spec_io(col, row) <==> produces(cells, cells.len() as int,
                    *group, region_by_index.entries@, false, col, row)
                &&& forall|col: Column<Any>, row: usize| r.spec_check(col, row) == bound_of(*group, region_by_index.entries@, cells, col, row)
            }),
    {
        let ghost cells = all_cells(*group, match extra_inputs { Some(e) => Some(e@), None => None });
        let ghost m = region_by_index.entries@;
        let ghost ni = group.inputs@.len();
        let ghost no = group.outputs@.len();
        proof {
            assert forall|i: int| 0 <= i < group.inputs@.len() implies #[trigger] group.inputs@[i] == cells[i] by {}
            assert forall|i: int| 0 <= i < group.outputs@.len() implies #[trigger] group.outputs@[i] == cells[ni + i] by {}
            if let Some(e) = extra_inputs {
                assert forall|i: int| 0 <= i < e@.len() implies #[trigger] e@[i] == cells[ni + no + i] by {}
            }
            assert(rows_known(group.inputs@, m)) by {
                assert forall|i: int| 0 <= i < group.inputs@.len() implies (#[trigger] group.inputs@[i] matches GroupCell::Assigned(cell) ==> lookup(m, cell.region_index) is Some
                    && (abs_row(m, cell.region_index, cell.row_offset) matches Some(r) ==> r <= usize::MAX)) by {
                    assert(cells[i] == group.inputs@[i]);
                }
            }
            assert(rows_known(group.outputs@, m)) by {
                assert forall|i: int| 0 <= i < group.outputs@.len() implies (#[trigger] group.outputs@[i] matches GroupCell::Assigned(cell) ==> lookup(m, cell.region_index) is Some
                    && (abs_row(m, cell.region_index, cell.row_offset) matches Some(r) ==> r <= usize::MAX)) by {
                    assert(cells[ni + i] == group.outputs@[i]);
                }
            }
            if let Some(e) = extra_inputs {
                assert(rows_known(e@, m)) by {
                    assert forall|i: int| 0 <= i < e@.len() implies (#[trigger] e@[i] matches GroupCell::Assigned(cell) ==> lookup(m, cell.region_index) is Some
                        && (abs_row(m, cell.region_index, cell.row_offset) matches Some(r) ==> r <= usize::MAX)) by {
                        assert(cells[ni + no + i] == e@[i]);
                    }
                }
            }
        }
        let mut foreign_io: Vec<(Column<Any>, usize)> = Vec::new();
        let mut io: Vec<(Column<Any>, usize)> = Vec::new();
        collect_entries(group.inputs.as_slice(), group, region_by_index, true, &mut foreign_io);
        collect_entries(group.outputs.as_slice(), group, region_by_index, true, &mut foreign_io);
        collect_entries(group.inputs.as_slice(), group, region_by_index, false, &mut io);
        collect_entries(group.outputs.as_slice(), group, region_by_index, false, &mut io);
        match extra_inputs {
            Some(e) => {
                collect_entries(e, group, region_by_index, true, &mut foreign_io);
                collect_entries(e, group, region_by_index, false, &mut io);
            },
            None => {},
        }
        let r = GroupBounds { group, foreign_io, io };
        proof {
            let ins = group.inputs@;
            let outs = group.outputs@;
            let ext = match extra_inputs { Some(e) => e@, None => Seq::<GroupCell>::empty() };
            assert(cells =~= ins + outs + ext);
            assert forall|col: Column<Any>, row: usize| r.spec_foreign_io(col, row) <==> produces(cells, cells.len() as int,
                *group, m, true, col, row) by {
                lemma_produces_concat(ins + outs, ext, *group, m, true, col, row);
                lemma_produces_concat(ins, outs, *group, m, true, col, row);
                assert(r.foreign_io@.contains((col, row)) == r.spec_foreign_io(col, row));
            }
            assert forall|col: Column<Any>, row: usize| r.spec_io(col, row) <==> produces(cells, cells.len() as int,
                *group, m, false, col, row) by {
                lemma_produces_concat(ins + outs, ext, *group, m, false, col, row);
                lemma_produces_concat(ins, outs, *group, m, false, col, row);
                assert(r.io@.contains((col, row)) == r.spec_io(col, row));
            }
        }
        r
    }

    /// Whether the cell is in one of the group's regions, or is an input or output outside
    /// them.
    pub fn within_bounds(&self, col: &Column<Any>, row: &usize) -> (r: bool)
        ensures
            r == self.spec_within(*col, *row),
    {
        cell_within_bounds(self.group, *col, Some(*row)) || self.is_foreign_io(col, row)
    }

    /// Returns true if the cell is an input or output that is not in the group's regions.
    pub fn is_foreign_io(&self, col: &Column<Any>, row: &usize) -> (r: bool)
        ensures
            r == self.spec_foreign_io(*col, *row),
    {
        has_cell(&self.foreign_io, col, *row)
    }

    /// Returns true if the cell is an input or output that is in the group's regions.
    pub fn is_io(&self, col: &Column<Any>, row: &usize) -> (r: bool)
        ensures
            r == self.spec_io(*col, *row),
    {
        has_cell(&self.io, col, *row)
    }

    /// Whether some region of the group has the fixed column.
    pub fn fixed_within_regions(&self, col: &Column<Fixed>) -> (r: bool)
        ensures
            r == in_regions(self.spec_group(), Column { index: col.index, column_type: Any::Fixed }, None),
    {
        cell_within_bounds(self.group, Column { index: col.index, column_type: Any::Fixed }, None)
    }

    /// Where the cell lies: outside the bounds, an input or output outside the regions, an
    /// input or output in them, or within them.
    pub fn check_cell(&self, col: &Column<Any>, row: &usize) -> (r: Bound)
        ensures
            r == self.spec_check(*col, *row),
    {
        if !self.within_bounds(col, row) {
            return Bound::Outside;
        }
        if self.is_foreign_io(col, row) {
            return Bound::ForeignIO;
        }
        if self.is_io(col, row) {
            return Bound::IO;
        }
        Bound::Within
    }

    /// Where the cell lies, as [`Self::check_cell`] says.
    pub open spec fn spec_check(&self, col: Column<Any>, row: usize) -> Bound {
        if !self.spec_within(col, row) {
            Bound::Outside
        } else if self.spec_foreign_io(col, row) {
            Bound::ForeignIO
        } else if self.spec_io(col, row) {
            Bound::IO
        } else {
            Bound::Within
        }
    }

    /// Checks the equality constraint against the bounds: where each cell of an edge between
    /// cells lies, and whether the fixed column of an edge to a constant is in the regions.
    pub fn check_eq_constraint(&self, eq_constraint: &EqConstraint) -> (r: EqConstraintCheck)
        ensures
            match *eq_constraint {
                EqConstraint::AnyToAny(from, from_row, to, to_row) => r matches EqConstraintCheck::AnyToAny(b1, c1, b2, c2)
                    && b1 == self.spec_check(from, from_row) && c1 == (from, from_row) && b2 == self.spec_check(to, to_row)
                    && c2 == (to, to_row),
                EqConstraint::FixedToConst(col, _, _) => r == EqConstraintCheck::FixedToConst(
                    if in_regions(self.spec_group(), Column { index: col.index, column_type: Any::Fixed }, None) {
                        Bound::Within
                    } else {
                        Bound::Outside
                    },
                ),
            },
    {
        match eq_constraint {
            EqConstraint::AnyToAny(from, from_row, to, to_row) => EqConstraintCheck::AnyToAny(
                self.check_cell(from, from_row),
                (*from, *from_row),
                self.check_cell(to, to_row),
                (*to, *to_row),
            ),
            EqConstraint::FixedToConst(column, _, _) => EqConstraintCheck::FixedToConst(
                if self.fixed_within_regions(column) {
                    Bound::Within
                } else {
                    Bound::Outside
                },
            ),
        }
    }
}

} // verus!

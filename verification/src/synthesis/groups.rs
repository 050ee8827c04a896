//! Groups of regions that synthesis records, and the cells that are their inputs and outputs.
use vstd::prelude::*;
use crate::resolvers::{Advice, Instance};
use crate::synthesis::regions::RegionIndex;
use crate::ir::groups::GroupKey;
use crate::poly::{Expression, Query, Rotation};
use crate::table::{Any, Cell, Column, query_of};

verus! {

/// A cell that is an input or output of a group.
#[derive(Debug, Clone, Copy)]
pub enum GroupCell {
    /// A cell assigned in a region.
    Assigned(Cell),
    /// An instance cell of the circuit, at an absolute row.
    InstanceIO((Column<Instance>, usize)),
    /// An advice cell of the circuit, at an absolute row.
    AdviceIO((Column<Advice>, usize)),
}

/// The column of a group cell, with its type erased.
pub open spec fn cell_col(c: GroupCell) -> Column<Any> {
    match c {
        GroupCell::Assigned(cell) => cell.column,
        GroupCell::InstanceIO((col, _)) => Column { index: col.index, column_type: Any::Instance },
        GroupCell::AdviceIO((col, _)) => Column { index: col.index, column_type: Any::Advice },
    }
}

/// The row of a group cell: the offset in its region for an assigned cell.
pub open spec fn cell_row(c: GroupCell) -> usize {
    match c {
        GroupCell::Assigned(cell) => cell.row_offset,
        GroupCell::InstanceIO((_, row)) => row,
        GroupCell::AdviceIO((_, row)) => row,
    }
}

/// The cell of an instance or advice column at an absolute row; none for a fixed column.
pub open spec fn tuple_cell(t: (Column<Any>, usize)) -> Option<GroupCell> {
    match t.0.column_type {
        Any::Fixed => None,
        Any::Instance => Some(GroupCell::InstanceIO((Column { index: t.0.index, column_type: Instance }, t.1))),
        Any::Advice => Some(GroupCell::AdviceIO((Column { index: t.0.index, column_type: Advice }, t.1))),
    }
}

impl GroupCell {
    /// The cell of an instance or advice column at an absolute row; a fixed column gives
    /// none.
    pub fn from_tuple(t: (Column<Any>, usize)) -> (r: Option<GroupCell>)
        ensures
            r == tuple_cell(t),
            t.0.column_type == Any::Fixed <==> r is None,
            r matches Some(c) ==> cell_col(c) == t.0 && cell_row(c) == t.1 && !(c is Assigned),
    {
        let (col, row) = t;
        match col.column_type {
            Any::Fixed => None,
            Any::Instance => Some(GroupCell::InstanceIO((Column { index: col.index, column_type: Instance }, row))),
            Any::Advice => Some(GroupCell::AdviceIO((Column { index: col.index, column_type: Advice }, row))),
        }
    }

    /// The column of the cell, with its type erased.
    pub fn col(&self) -> (r: Column<Any>)
        ensures
            r == cell_col(*self),
    {
        match self {
            GroupCell::Assigned(cell) => cell.column,
            GroupCell::InstanceIO((col, _)) => Column { index: col.index, column_type: Any::Instance },
            GroupCell::AdviceIO((col, _)) => Column { index: col.index, column_type: Any::Advice },
        }
    }

    /// The region of an assigned cell.
    pub fn region_index(&self) -> (r: Option<RegionIndex>)
        ensures
            r == (match *self {
                GroupCell::Assigned(c) => Some(c.region_index),
                _ => None::<RegionIndex>,
            }),
    {
        match self {
            GroupCell::Assigned(c) => Some(c.region_index),
            _ => None,
        }
    }

    /// The query of the cell, at the row where it is resolved.
    pub fn to_expr(&self) -> (r: Expression)
        ensures
            r == query_of(cell_col(*self).column_type, cell_col(*self).index, Rotation(0)),
    {
        let col = self.col();
        let q = Query { column_index: col.index, rotation: Rotation(0) };
        match col.column_type {
            Any::Fixed => Expression::Fixed(q),
            Any::Advice => Expression::Advice(q),
            Any::Instance => Expression::Instance(q),
        }
    }

    /// The row of the cell: the offset in its region for an assigned cell.
    pub fn row(&self) -> (r: usize)
        ensures
            r == cell_row(*self),
    {
        match self {
            GroupCell::Assigned(cell) => cell.row_offset,
            GroupCell::InstanceIO((_, row)) => *row,
            GroupCell::AdviceIO((_, row)) => *row,
        }
    }
}

/// What a group knows of one of its regions: its index, its columns and its rows.
#[derive(Debug)]
pub struct GroupRegion {
    /// Index of the region.
    pub index: RegionIndex,
    /// Columns of the region.
    pub columns: Vec<Column<Any>>,
    /// First and last rows of the region, if any cell was assigned.
    pub rows: Option<(usize, usize)>,
}

/// A group of regions, with its inputs and outputs and the groups it calls.
#[derive(Debug)]
pub struct Group {
    /// Name of the group.
    pub name: String,
    /// Whether the group is the top level of the circuit.
    pub top_level: bool,
    /// The key of the group; the top level has none.
    pub key: Option<GroupKey>,
    /// The regions of the group.
    pub regions: Vec<GroupRegion>,
    /// Inputs of the group.
    pub inputs: Vec<GroupCell>,
    /// Outputs of the group.
    pub outputs: Vec<GroupCell>,
    /// The groups called, by their position among the groups, one per callsite.
    pub children: Vec<usize>,
}

impl Group {
    /// The callsite, if any, at which the group calls the group at position `idx`: the first
    /// one.
    pub fn has_child(&self, idx: usize) -> (r: Option<usize>)
        ensures
            r matches Some(k) ==> k < self.children@.len() && self.children@[k as int] == idx && forall|j: int|
                0 <= j < k ==> self.children@[j] != idx,
            r is None ==> !self.children@.contains(idx),
    {
        let mut i: usize = 0;
        while i < self.children.len()
            invariant
                i <= self.children@.len(),
                forall|j: int| 0 <= j < i ==> self.children@[j] != idx,
            decreases self.children@.len() - i,
        {
            if self.children[i] == idx {
                return Some(i);
            }
            i = i + 1;
        }
        None
    }

    /// The number of callsites in the group.
    pub fn children_count(&self) -> (r: usize)
        ensures
            r == self.children@.len(),
    {
        self.children.len()
    }

    /// Whether the group is the top level of the circuit.
    pub fn is_top_level(&self) -> (r: bool)
        ensures
            r == self.top_level,
    {
        self.top_level
    }
}

/// The first rows of regions, by region index.
#[derive(Debug)]
pub struct RegionByIndex {
    /// Index of each region and its first row, if known; the first entry of an index counts.
    pub entries: Vec<(RegionIndex, Option<usize>)>,
}

/// The first row of the region, if the map knows the region (`Some(None)` when the region
/// has no rows).
pub open spec fn lookup(entries: Seq<(RegionIndex, Option<usize>)>, idx: RegionIndex) -> Option<Option<usize>>
    decreases entries.len(),
{
    if entries.len() == 0 {
        None
    } else if entries[0].0 == idx {
        Some(entries[0].1)
    } else {
        lookup(entries.drop_first(), idx)
    }
}

impl RegionByIndex {
    /// The first row of the region, as [`lookup`] says.
    pub fn start_of(&self, idx: RegionIndex) -> (r: Option<Option<usize>>)
        ensures
            r == lookup(self.entries@, idx),
    {
        let mut i: usize = 0;
        assert(self.entries@.skip(0) =~= self.entries@);
        while i < self.entries.len()
            invariant
                i <= self.entries@.len(),
                lookup(self.entries@, idx) == lookup(self.entries@.skip(i as int), idx),
            decreases self.entries@.len() - i,
        {
            proof {
                assert(self.entries@.skip(i as int).drop_first() =~= self.entries@.skip(i + 1));
            }
            if self.entries[i].0.0 == idx.0 {
                return Some(self.entries[i].1);
            }
            i = i + 1;
        }
        None
    }
}

} // verus!

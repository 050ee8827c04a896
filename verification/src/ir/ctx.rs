//! Information about the IR of a circuit that its lowering needs: the inputs and outputs of
//! each group, and the free cells lifted into them.
use vstd::prelude::*;
use crate::io::{AdviceIO, CircuitIO, InstanceIO};
use crate::ir::generate::free_cells::{FreeCells, lift_free_cells_to_inputs, ranked};
use crate::ir::groups::bounds::{all_cells, rows_known};
use crate::resolvers::{Advice, Instance};
use crate::synthesis::constraint::EqConstraintGraph;
use crate::synthesis::groups::{Group, GroupCell, RegionByIndex, lookup};
use crate::table::{Any, Column};

verus! {

/// The advice cell that a group cell is, at its absolute row, if it is one.
pub open spec fn advice_cell_of(c: GroupCell, m: Seq<(crate::synthesis::regions::RegionIndex, Option<usize>)>) -> Option<(Column<Advice>, usize)> {
    match c {
        GroupCell::Assigned(cell) => if cell.column.column_type == Any::Advice {
            match lookup(m, cell.region_index) {
                Some(Some(start)) => Some((Column { index: cell.column.index, column_type: Advice }, (cell.row_offset + start) as usize)),
                _ => None,
            }
        } else {
            None
        },
        GroupCell::InstanceIO(_) => None,
        GroupCell::AdviceIO(cell) => Some(cell),
    }
}

/// The instance cell that a group cell is, at its absolute row, if it is one.
pub open spec fn instance_cell_of(c: GroupCell, m: Seq<(crate::synthesis::regions::RegionIndex, Option<usize>)>) -> Option<(Column<Instance>, usize)> {
    match c {
        GroupCell::Assigned(cell) => if cell.column.column_type == Any::Instance {
            match lookup(m, cell.region_index) {
                Some(Some(start)) => Some((Column { index: cell.column.index, column_type: Instance }, (cell.row_offset + start) as usize)),
                _ => None,
            }
        } else {
            None
        },
        GroupCell::InstanceIO(cell) => Some(cell),
        GroupCell::AdviceIO(_) => None,
    }
}

/// The advice cells of the list, as [`advice_cell_of`] says, in order.
pub open spec fn advice_cells(cs: Seq<GroupCell>, m: Seq<(crate::synthesis::regions::RegionIndex, Option<usize>)>) -> Seq<(Column<Advice>, usize)>
    decreases cs.len(),
{
    if cs.len() == 0 {
        Seq::empty()
    } else {
        advice_cells(cs.drop_last(), m) + match advice_cell_of(cs.last(), m) {
            Some(x) => seq![x],
            None => Seq::empty(),
        }
    }
}

/// The instance cells of the list, as [`instance_cell_of`] says, in order.
pub open spec fn instance_cells(cs: Seq<GroupCell>, m: Seq<(crate::synthesis::regions::RegionIndex, Option<usize>)>) -> Seq<(Column<Instance>, usize)>
    decreases cs.len(),
{
    if cs.len() == 0 {
        Seq::empty()
    } else {
        instance_cells(cs.drop_last(), m) + match instance_cell_of(cs.last(), m) {
            Some(x) => seq![x],
            None => Seq::empty(),
        }
    }
}

/// Every assigned advice or instance cell among the cells has a region whose first row is
/// known, and its absolute row fits in a `usize`.
pub open spec fn starts_known(cs: Seq<GroupCell>, m: Seq<(crate::synthesis::regions::RegionIndex, Option<usize>)>) -> bool {
    forall|i: int| 0 <= i < cs.len() ==> (#[trigger] cs[i] matches GroupCell::Assigned(cell) ==> (cell.column.column_type != Any::Fixed
        ==> (lookup(m, cell.region_index) matches Some(Some(start)) && start + cell.row_offset <= usize::MAX)))
}

/// The advice cells of the list, as [`advice_cell_of`] says, or its instance cells.
fn io_cells(cs: &[GroupCell], m: &RegionByIndex, advice: bool) -> (r: (Vec<(Column<Advice>, usize)>, Vec<(Column<Instance>, usize)>))
    requires
        starts_known(cs@, m.entries@),
    ensures
        advice ==> r.0@ == advice_cells(cs@, m.entries@),
        !advice ==> r.1@ == instance_cells(cs@, m.entries@),
{
    let mut adv: Vec<(Column<Advice>, usize)> = Vec::new();
    let mut ins: Vec<(Column<Instance>, usize)> = Vec::new();
    let mut i: usize = 0;
    while i < cs.len()
        invariant
            i <= cs@.len(),
            starts_known(cs@, m.entries@),
            advice ==> adv@ == advice_cells(cs@.take(i as int), m.entries@),
            !advice ==> ins@ == instance_cells(cs@.take(i as int), m.entries@),
        decreases cs@.len() - i,
    {
        let c = cs[i];
        proof {
            assert(cs@.take(i + 1).drop_last() =~= cs@.take(i as int));
            assert(cs@.take(i + 1).last() == c);
            assert(cs@[i as int] == c);
            assert(advice_cells(cs@.take(i + 1), m.entries@) == advice_cells(cs@.take(i as int), m.entries@) + match advice_cell_of(c, m.entries@) {
                Some(x) => seq![x],
                None => Seq::empty(),
            });
            assert(instance_cells(cs@.take(i + 1), m.entries@) == instance_cells(cs@.take(i as int), m.entries@) + match instance_cell_of(c, m.entries@) {
                Some(x) => seq![x],
                None => Seq::empty(),
            });
        }
        match c {
            GroupCell::Assigned(cell) => {
                match cell.column.column_type {
                    Any::Advice => if advice {
                        match m.start_of(cell.region_index) {
                            Some(Some(start)) => adv.push((Column { index: cell.column.index, column_type: Advice }, cell.row_offset + start)),
                            _ => {},
                        }
                    },
                    Any::Instance => if !advice {
                        match m.start_of(cell.region_index) {
                            Some(Some(start)) => ins.push((Column { index: cell.column.index, column_type: Instance }, cell.row_offset + start)),
                            _ => {},
                        }
                    },
                    Any::Fixed => {},
                }
            },
            GroupCell::InstanceIO(cell) => if !advice {
                ins.push(cell);
            },
            GroupCell::AdviceIO(cell) => if advice {
                adv.push(cell);
            },
        }
        i = i + 1;
    }
    proof {
        assert(cs@.take(cs@.len() as int) =~= cs@);
    }
    (adv, ins)
}

/// Constructs the advice inputs and outputs of a group from its input and output cells.
fn mk_advice_io(inputs: &[GroupCell], outputs: &[GroupCell], m: &RegionByIndex) -> (r: AdviceIO)
    requires
        starts_known(inputs@, m.entries@),
        starts_known(outputs@, m.entries@),
    ensures
        r.spec_inputs() == advice_cells(inputs@, m.entries@),
        r.spec_outputs() == advice_cells(outputs@, m.entries@),
{
    let (i, _) = io_cells(inputs, m, true);
    let (o, _) = io_cells(outputs, m, true);
    CircuitIO::new_from_iocells(i, o)
}

/// Constructs the instance inputs and outputs of a group from its input and output cells.
fn mk_instance_io(inputs: &[GroupCell], outputs: &[GroupCell], m: &RegionByIndex) -> (r: InstanceIO)
    requires
        starts_known(inputs@, m.entries@),
        starts_known(outputs@, m.entries@),
    ensures
        r.spec_inputs() == instance_cells(inputs@, m.entries@),
        r.spec_outputs() == instance_cells(outputs@, m.entries@),
{
    let (_, i) = io_cells(inputs, m, false);
    let (_, o) = io_cells(outputs, m, false);
    CircuitIO::new_from_iocells(i, o)
}

/// If the group is not the top level one, adds its free cells to its inputs: instance cells
/// to the instance inputs and advice cells to the advice inputs.
fn update_io(advice_io: &mut AdviceIO, instance_io: &mut InstanceIO, group: &Group, free_cells: &FreeCells)
    requires
        forall|i: int| 0 <= i < free_cells.inputs@.len() ==> !(#[trigger] free_cells.inputs@[i] is Assigned),
    ensures
        group.top_level ==> final(advice_io).spec_inputs() == old(advice_io).spec_inputs()
            && final(instance_io).spec_inputs() == old(instance_io).spec_inputs(),
        !group.top_level ==> final(advice_io).spec_inputs() == old(advice_io).spec_inputs() + advice_cells(free_cells.inputs@, Seq::empty())
            && final(instance_io).spec_inputs() == old(instance_io).spec_inputs() + instance_cells(free_cells.inputs@, Seq::empty()),
        final(advice_io).spec_outputs() == old(advice_io).spec_outputs(),
        final(instance_io).spec_outputs() == old(instance_io).spec_outputs(),
{
    if group.is_top_level() {
        return;
    }
    let ghost a0 = advice_io.spec_inputs();
    let ghost i0 = instance_io.spec_inputs();
    let cs = &free_cells.inputs;
    let mut i: usize = 0;
    while i < cs.len()
        invariant
            i <= cs@.len(),
            forall|k: int| 0 <= k < cs@.len() ==> !(#[trigger] cs@[k] is Assigned),
            advice_io.spec_inputs() == a0 + advice_cells(cs@.take(i as int), Seq::empty()),
            instance_io.spec_inputs() == i0 + instance_cells(cs@.take(i as int), Seq::empty()),
            advice_io.spec_outputs() == old(advice_io).spec_outputs(),
            instance_io.spec_outputs() == old(instance_io).spec_outputs(),
        decreases cs@.len() - i,
    {
        let c = cs[i];
        proof {
            assert(cs@.take(i + 1).drop_last() =~= cs@.take(i as int));
            assert(cs@.take(i + 1).last() == c);
            assert(!(cs@[i as int] is Assigned));
        }
        match c {
            GroupCell::InstanceIO(cell) => instance_io.add_input(cell),
            GroupCell::AdviceIO(cell) => advice_io.add_input(cell),
            GroupCell::Assigned(_) => {},
        }
        proof {
            assert(advice_cells(cs@.take(i + 1), Seq::empty()) == advice_cells(cs@.take(i as int), Seq::empty()) + match advice_cell_of(c, Seq::empty()) {
                Some(x) => seq![x],
                None => Seq::empty(),
            });
            assert(instance_cells(cs@.take(i + 1), Seq::empty()) == instance_cells(cs@.take(i as int), Seq::empty()) + match instance_cell_of(c, Seq::empty()) {
                Some(x) => seq![x],
                None => Seq::empty(),
            });
            assert(advice_io.spec_inputs() =~= a0 + advice_cells(cs@.take(i + 1), Seq::empty()));
            assert(instance_io.spec_inputs() =~= i0 + instance_cells(cs@.take(i + 1), Seq::empty()));
        }
        i = i + 1;
    }
    proof {
        assert(cs@.take(cs@.len() as int) =~= cs@);
    }
}

/// Contains information related to the IR of a circuit. Is used by the driver to lower the
/// circuit.
#[derive(Debug)]
pub struct IRCtx {
    groups_advice_io: Vec<AdviceIO>,
    groups_instance_io: Vec<InstanceIO>,
    regions_by_index: RegionByIndex,
    free_cells: Vec<FreeCells>,
}

impl IRCtx {
    /// The number of groups described.
    pub closed spec fn spec_len(&self) -> nat {
        self.free_cells@.len()
    }

    /// The advice inputs and outputs of each group.
    pub closed spec fn spec_advice_io(&self) -> Seq<AdviceIO> {
        self.groups_advice_io@
    }

    /// The instance inputs and outputs of each group.
    pub closed spec fn spec_instance_io(&self) -> Seq<InstanceIO> {
        self.groups_instance_io@
    }

    /// The free cells of each group.
    pub closed spec fn spec_free_cells(&self) -> Seq<FreeCells> {
        self.free_cells@
    }

    /// The first rows of the regions, by index.
    pub closed spec fn spec_regions_by_index(&self) -> Seq<(crate::synthesis::regions::RegionIndex, Option<usize>)> {
        self.regions_by_index.entries@
    }

    /// Lifts the free cells of the groups into their inputs (see
    /// [`lift_free_cells_to_inputs`]) and computes the inputs and outputs of each group: its
    /// own, and then its free cells unless it is the top level group.
    pub fn new(groups: &[Group], region_by_index: RegionByIndex, constraints: &EqConstraintGraph) -> (r: Self)
        requires
            exists|rank: Seq<nat>| ranked(groups@, rank),
            forall|g: int| 0 <= g < groups@.len() ==> rows_known(all_cells(#[trigger] groups@[g], None), region_by_index.entries@),
            forall|g: int| 0 <= g < groups@.len() ==> starts_known((#[trigger] groups@[g]).inputs@, region_by_index.entries@)
                && starts_known(groups@[g].outputs@, region_by_index.entries@),
        ensures
            r.spec_len() == groups@.len(),
            r.spec_regions_by_index() == region_by_index.entries@,
            r.spec_advice_io().len() == groups@.len(),
            r.spec_instance_io().len() == groups@.len(),
            forall|g: int| 0 <= g < groups@.len() ==> (#[trigger] r.spec_advice_io()[g]).spec_outputs()
                == advice_cells(groups@[g].outputs@, region_by_index.entries@),
            forall|g: int| 0 <= g < groups@.len() ==> (#[trigger] r.spec_instance_io()[g]).spec_outputs()
                == instance_cells(groups@[g].outputs@, region_by_index.entries@),
            forall|g: int| 0 <= g < groups@.len() && groups@[g].top_level ==> (#[trigger] r.spec_advice_io()[g]).spec_inputs()
                == advice_cells(groups@[g].inputs@, region_by_index.entries@),
    {
        let free_cells = lift_free_cells_to_inputs(groups, &region_by_index, constraints);
        let mut groups_advice_io: Vec<AdviceIO> = Vec::new();
        let mut groups_instance_io: Vec<InstanceIO> = Vec::new();
        let mut idx: usize = 0;
        while idx < groups.len()
            invariant
                idx <= groups@.len(),
                free_cells@.len() == groups@.len(),
                forall|i: int| 0 <= i < free_cells@.len() ==> forall|k: int| 0 <= k < (#[trigger] free_cells@[i]).inputs@.len()
                    ==> !(#[trigger] free_cells@[i].inputs@[k] is Assigned),
                forall|g: int| 0 <= g < groups@.len() ==> starts_known((#[trigger] groups@[g]).inputs@, region_by_index.entries@)
                    && starts_known(groups@[g].outputs@, region_by_index.entries@),
                groups_advice_io@.len() == idx,
                groups_instance_io@.len() == idx,
                forall|g: int| 0 <= g < idx ==> (#[trigger] groups_advice_io@[g]).spec_outputs()
                    == advice_cells(groups@[g].outputs@, region_by_index.entries@),
                forall|g: int| 0 <= g < idx ==> (#[trigger] groups_instance_io@[g]).spec_outputs()
                    == instance_cells(groups@[g].outputs@, region_by_index.entries@),
                forall|g: int| 0 <= g < idx && groups@[g].top_level ==> (#[trigger] groups_advice_io@[g]).spec_inputs()
                    == advice_cells(groups@[g].inputs@, region_by_index.entries@),
            decreases groups@.len() - idx,
        {
            let group = &groups[idx];
            assert(starts_known(groups@[idx as int].inputs@, region_by_index.entries@));
            let mut advice_io = mk_advice_io(group.inputs.as_slice(), group.outputs.as_slice(), &region_by_index);
            let mut instance_io = mk_instance_io(group.inputs.as_slice(), group.outputs.as_slice(), &region_by_index);
            assert(forall|k: int| 0 <= k < free_cells@[idx as int].inputs@.len() ==> !(#[trigger] free_cells@[idx as int].inputs@[k] is Assigned));
            update_io(&mut advice_io, &mut instance_io, group, &free_cells[idx]);
            groups_advice_io.push(advice_io);
            groups_instance_io.push(instance_io);
            idx = idx + 1;
        }
        IRCtx { groups_advice_io, groups_instance_io, regions_by_index: region_by_index, free_cells }
    }

    /// The advice inputs and outputs of the group.
    pub fn advice_io_of_group(&self, idx: usize) -> (r: &AdviceIO)
        requires
            idx < self.spec_advice_io().len(),
        ensures
            *r == self.spec_advice_io()[idx as int],
    {
        &self.groups_advice_io[idx]
    }

    /// The instance inputs and outputs of the group.
    pub fn instance_io_of_group(&self, idx: usize) -> (r: &InstanceIO)
        requires
            idx < self.spec_instance_io().len(),
        ensures
            *r == self.spec_instance_io()[idx as int],
    {
        &self.groups_instance_io[idx]
    }

    /// The free cells of the group.
    pub fn free_cells(&self, idx: usize) -> (r: &FreeCells)
        requires
            idx < self.spec_len(),
        ensures
            *r == self.spec_free_cells()[idx as int],
    {
        &self.free_cells[idx]
    }

    /// The first rows of the regions.
    pub fn regions_by_index(&self) -> (r: &RegionByIndex)
        ensures
            r.entries@ == self.spec_regions_by_index(),
    {
        &self.regions_by_index
    }
}

} // verus!

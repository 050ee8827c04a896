//! Calls between groups: the expressions of the inputs and outputs of the called group.
use vstd::prelude::*;
use crate::func_io::FuncIO;
use crate::io::{AdviceIO, InstanceIO};
use crate::ir::groups::{CallSite, GroupKey};
use crate::ir::scoped::{Scope, ScopedExpression};
use crate::resolvers::FixedQueryResolver;
use crate::synthesis::groups::{Group, GroupCell, cell_col};
use crate::synthesis::regions::RegionIndex;
use crate::synthesis::regions::data::RegionData;
use crate::synthesis::regions::region_row::{RegionRow, RowMode};
use crate::synthesis::regions::row::Row;
use crate::table::query_of;
use crate::poly::Rotation;
use crate::temps::ExprOrTemp;

verus! {

/// Why the expressions of a call could not be built.
#[derive(Debug, Clone, Copy, PartialEq, Eq, Structural)]
pub enum CallSiteError {
    /// The top level cannot be called by another group.
    TopLevelCalled,
    /// A cell belongs to a region that is not known.
    UnknownRegion(RegionIndex),
    /// A cell belongs to a region that has no rows.
    RegionWithoutStart(RegionIndex),
    /// The row of a cell does not fit in a machine integer.
    RowOverflow,
}

/// The first of the regions that has the index.
pub open spec fn find_region<'r>(regions: Seq<RegionData<'r>>, idx: RegionIndex) -> Option<RegionData<'r>>
    decreases regions.len(),
{
    if regions.len() == 0 {
        None
    } else {
        match find_region(regions.drop_last(), idx) {
            Some(r) => Some(r),
            None => if regions.last().data().spec_index() == Some(idx) {
                Some(regions.last())
            } else {
                None
            },
        }
    }
}

/// Where a cell resolves: an assigned cell in its region, at the first row of the region plus
/// its offset; a cell of the inputs or outputs of the circuit outside of any region, at its
/// row.
pub open spec fn cell_place<'r>(cell: GroupCell, regions: Seq<RegionData<'r>>) -> Result<(Option<RegionData<'r>>, usize), CallSiteError> {
    match cell {
        GroupCell::Assigned(c) => match find_region(regions, c.region_index) {
            None => Err(CallSiteError::UnknownRegion(c.region_index)),
            Some(rd) => match rd.data().spec_rows() {
                None => Err(CallSiteError::RegionWithoutStart(c.region_index)),
                Some((s, _)) => if s + c.row_offset <= usize::MAX {
                    Ok((Some(rd), (s + c.row_offset) as usize))
                } else {
                    Err(CallSiteError::RowOverflow)
                },
            },
        },
        GroupCell::InstanceIO((_, row)) => Ok((None, row)),
        GroupCell::AdviceIO((_, row)) => Ok((None, row)),
    }
}

/// Whether the scoped expression is the query of the cell, resolved at the place.
pub open spec fn scoped_cell<'r, 'io, 'fq, R: FixedQueryResolver>(
    e: ExprOrTemp<ScopedExpression<'r, 'io, 'fq, R>>,
    cell: GroupCell,
    place: (Option<RegionData<'r>>, usize),
    advice_io: AdviceIO,
    instance_io: InstanceIO,
    fqr: R,
) -> bool {
    &&& e matches ExprOrTemp::Expr(se)
    &&& se.expr == query_of(cell_col(cell).column_type, cell_col(cell).index, Rotation(0))
    &&& match (se.scope, place.0) {
        (Scope::InRegion(rr), Some(rd)) => {
            &&& rr.spec_region() == rd
            &&& rr.spec_mode() == RowMode::Absolute
            &&& rr.spec_row().spec_row() == place.1
            &&& rr.spec_row().spec_advice_io() == advice_io
            &&& rr.spec_row().spec_instance_io() == instance_io
            &&& rr.spec_row().spec_fqr() == fqr
        },
        (Scope::AtRow(row), None) => {
            &&& row.spec_row() == place.1
            &&& row.spec_advice_io() == advice_io
            &&& row.spec_instance_io() == instance_io
            &&& row.spec_fqr() == fqr
        },
        _ => false,
    }
}

/// The first cell whose place is an error, if any.
pub open spec fn first_cell_error<'r>(cells: Seq<GroupCell>, regions: Seq<RegionData<'r>>) -> Option<CallSiteError>
    decreases cells.len(),
{
    if cells.len() == 0 {
        None
    } else {
        match first_cell_error(cells.drop_last(), regions) {
            Some(e) => Some(e),
            None => match cell_place(cells.last(), regions) {
                Err(e) => Some(e),
                Ok(_) => None,
            },
        }
    }
}

/// No cell is an error of a call of the top level.
proof fn lemma_cell_error_not_top<'r>(cells: Seq<GroupCell>, regions: Seq<RegionData<'r>>)
    ensures
        first_cell_error(cells, regions) != Some(CallSiteError::TopLevelCalled),
    decreases cells.len(),
{
    if cells.len() > 0 {
        lemma_cell_error_not_top(cells.drop_last(), regions);
    }
}

/// The first of the regions that has the index, as [`find_region`] says.
fn region_by_index<'r>(regions: &Vec<RegionData<'r>>, idx: RegionIndex) -> (r: Option<RegionData<'r>>)
    ensures
        r == find_region(regions@, idx),
{
    let mut i: usize = 0;
    while i < regions.len()
        invariant
            i <= regions@.len(),
            find_region(regions@.take(i as int), idx) is None,
        decreases regions@.len() - i,
    {
        proof {
            assert(regions@.take(i + 1).drop_last() =~= regions@.take(i as int));
        }
        let found = match regions[i].index() {
            Some(j) => j.0 == idx.0,
            None => false,
        };
        if found {
            proof {
                lemma_find_region_prefix(regions@, i + 1, idx);
            }
            return Some(regions[i]);
        }
        i = i + 1;
    }
    proof {
        assert(regions@.take(i as int) =~= regions@);
    }
    None
}

/// A region found in a prefix is the one found in the whole list.
proof fn lemma_find_region_prefix<'r>(regions: Seq<RegionData<'r>>, n: int, idx: RegionIndex)
    requires
        0 <= n <= regions.len(),
        find_region(regions.take(n), idx) is Some,
    ensures
        find_region(regions, idx) == find_region(regions.take(n), idx),
    decreases regions.len() - n,
{
    if n < regions.len() {
        assert(regions.take(n + 1).drop_last() =~= regions.take(n));
        lemma_find_region_prefix(regions, n + 1, idx);
    } else {
        assert(regions.take(n) =~= regions);
    }
}

/// The query of each cell, resolved where the cell is (see [`cell_place`]), or the error of
/// the first cell that has one.
pub fn cells_to_exprs<'r, 'io, 'fq, R: FixedQueryResolver>(
    cells: &Vec<GroupCell>,
    regions: &Vec<RegionData<'r>>,
    advice_io: &'io AdviceIO,
    instance_io: &'io InstanceIO,
    fqr: &'fq R,
) -> (r: Result<Vec<ExprOrTemp<ScopedExpression<'r, 'io, 'fq, R>>>, CallSiteError>)
    ensures
        match r {
            Ok(v) => first_cell_error(cells@, regions@) is None && v@.len() == cells@.len()
                && forall|i: int| 0 <= i < cells@.len() ==> scoped_cell(#[trigger] v@[i], cells@[i],
                    cell_place(cells@[i], regions@)->Ok_0, *advice_io, *instance_io, *fqr),
            Err(e) => first_cell_error(cells@, regions@) == Some(e),
        },
{
    let mut out: Vec<ExprOrTemp<ScopedExpression<'r, 'io, 'fq, R>>> = Vec::new();
    let mut i: usize = 0;
    while i < cells.len()
        invariant
            i <= cells@.len(),
            first_cell_error(cells@.take(i as int), regions@) is None,
            out@.len() == i,
            forall|j: int| 0 <= j < i ==> scoped_cell(#[trigger] out@[j], cells@[j],
                cell_place(cells@[j], regions@)->Ok_0, *advice_io, *instance_io, *fqr),
            forall|j: int| 0 <= j < i ==> cell_place(#[trigger] cells@[j], regions@) is Ok,
        decreases cells@.len() - i,
    {
        proof {
            assert(cells@.take(i + 1).drop_last() =~= cells@.take(i as int));
            assert(cells@.take(i + 1).last() == cells@[i as int]);
        }
        let cell = &cells[i];
        let region = match cell.region_index() {
            Some(idx) => match region_by_index(regions, idx) {
                Some(rd) => Some(rd),
                None => {
                    proof {
                        lemma_first_cell_error_stays(cells@, regions@, i + 1);
                    }
                    return Err(CallSiteError::UnknownRegion(idx));
                },
            },
            None => None,
        };
        let row = match cell {
            GroupCell::Assigned(c) => {
                let rd = region.unwrap();
                match rd.start() {
                    Some(s) => match s.checked_add(c.row_offset) {
                        Some(r) => r,
                        None => {
                            proof {
                                lemma_first_cell_error_stays(cells@, regions@, i + 1);
                            }
                            return Err(CallSiteError::RowOverflow);
                        },
                    },
                    None => {
                        proof {
                            lemma_first_cell_error_stays(cells@, regions@, i + 1);
                        }
                        return Err(CallSiteError::RegionWithoutStart(c.region_index));
                    },
                }
            },
            GroupCell::InstanceIO((_, row)) => *row,
            GroupCell::AdviceIO((_, row)) => *row,
        };
        let expr = cell.to_expr();
        let scope = match region {
            Some(rd) => Scope::InRegion(RegionRow::new(rd, row, advice_io, instance_io, fqr)),
            None => Scope::AtRow(Row::new(row, advice_io, instance_io, fqr)),
        };
        out.push(ExprOrTemp::Expr(ScopedExpression::new(expr, scope)));
        i = i + 1;
    }
    proof {
        assert(cells@.take(i as int) =~= cells@);
    }
    Ok(out)
}

/// An error at the first cells is the first error of all the cells.
proof fn lemma_first_cell_error_stays<'r>(cells: Seq<GroupCell>, regions: Seq<RegionData<'r>>, n: int)
    requires
        0 <= n <= cells.len(),
        first_cell_error(cells.take(n), regions) is Some,
    ensures
        first_cell_error(cells, regions) == first_cell_error(cells.take(n), regions),
    decreases cells.len() - n,
{
    if n < cells.len() {
        assert(cells.take(n + 1).drop_last() =~= cells.take(n));
        lemma_first_cell_error_stays(cells, regions, n + 1);
    } else {
        assert(cells.take(n) =~= cells);
    }
}

/// The callsite of a call to the group: its name, key and position, the expressions of its
/// inputs and outputs resolved where their cells are (see [`cells_to_exprs`]), and the n-th
/// output of the call number `call_no` for its n-th output. The top level cannot be called.
pub fn new_callsite<'r, 'io, 'fq, R: FixedQueryResolver>(
    callee: &Group,
    callee_id: usize,
    regions: &Vec<RegionData<'r>>,
    call_no: usize,
    advice_io: &'io AdviceIO,
    instance_io: &'io InstanceIO,
    fqr: &'fq R,
) -> (r: Result<CallSite<ExprOrTemp<ScopedExpression<'r, 'io, 'fq, R>>>, CallSiteError>)
    ensures
        match r {
            Ok(cs) => {
                &&& callee.key == Some(cs.callee)
                &&& first_cell_error(callee.inputs@, regions@) is None
                &&& first_cell_error(callee.outputs@, regions@) is None
                &&& cs.name@ == callee.name@
                &&& cs.callee_id == callee_id
                &&& cs.inputs@.len() == callee.inputs@.len()
                &&& forall|i: int| 0 <= i < callee.inputs@.len() ==> scoped_cell(#[trigger] cs.inputs@[i], callee.inputs@[i],
                    cell_place(callee.inputs@[i], regions@)->Ok_0, *advice_io, *instance_io, *fqr)
                &&& cs.outputs@.len() == callee.outputs@.len()
                &&& forall|i: int| 0 <= i < callee.outputs@.len() ==> scoped_cell(#[trigger] cs.outputs@[i], callee.outputs@[i],
                    cell_place(callee.outputs@[i], regions@)->Ok_0, *advice_io, *instance_io, *fqr)
                &&& cs.output_vars@ == Seq::new(callee.outputs@.len(), |n: int| FuncIO::CallOutput(call_no, n as usize))
            },
            Err(CallSiteError::TopLevelCalled) => callee.key is None,
            Err(e) => callee.key is Some && (first_cell_error(callee.inputs@, regions@) == Some(e)
                || (first_cell_error(callee.inputs@, regions@) is None && first_cell_error(callee.outputs@, regions@) == Some(e))),
        },
{
    let key: GroupKey = match callee.key {
        Some(k) => k,
        None => return Err(CallSiteError::TopLevelCalled),
    };
    proof {
        lemma_cell_error_not_top(callee.inputs@, regions@);
        lemma_cell_error_not_top(callee.outputs@, regions@);
    }
    let inputs = match cells_to_exprs(&callee.inputs, regions, advice_io, instance_io, fqr) {
        Ok(v) => v,
        Err(e) => return Err(e),
    };
    let outputs = match cells_to_exprs(&callee.outputs, regions, advice_io, instance_io, fqr) {
        Ok(v) => v,
        Err(e) => return Err(e),
    };
    let mut output_vars: Vec<FuncIO> = Vec::new();
    let mut n: usize = 0;
    while n < callee.outputs.len()
        invariant
            n <= callee.outputs@.len(),
            output_vars@ == Seq::new(n as nat, |k: int| FuncIO::CallOutput(call_no, k as usize)),
        decreases callee.outputs@.len() - n,
    {
        output_vars.push(FuncIO::CallOutput(call_no, n));
        n = n + 1;
        proof {
            assert(output_vars@ =~= Seq::new(n as nat, |k: int| FuncIO::CallOutput(call_no, k as usize)));
        }
    }
    Ok(CallSite { name: callee.name.clone(), callee: key, callee_id, inputs, output_vars, outputs })
}

} // verus!

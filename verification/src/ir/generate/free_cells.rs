//! Cells of equality constraints that cross the bounds of groups, lifted into their inputs.
use vstd::prelude::*;
use crate::ir::groups::bounds::{Bound, EqConstraintCheck, GroupBounds, all_cells, bound_of, rows_known, in_regions, produces};
use crate::synthesis::constraint::{ArgModel, EqConstraint, EqConstraintGraph, ends, oriented};
use crate::synthesis::groups::{Group, GroupCell, RegionByIndex, cell_col, cell_row, tuple_cell};
use crate::synthesis::regions::RegionIndex;
use crate::table::{Any, Column};

verus! {

/// List of free cells that need to be binded in a group.
#[derive(Debug)]
pub struct FreeCells {
    /// Cells to add to the inputs of the group.
    pub inputs: Vec<GroupCell>,
    /// Cells to add to the arguments of each callsite of the group.
    pub callsites: Vec<Vec<GroupCell>>,
}

/// The free cell of an edge for a group: the cell outside the group's bounds when the other
/// one is within (see [`bound_of`]).
pub open spec fn free_of(e: (ArgModel, ArgModel), g: Group, m: Seq<(RegionIndex, Option<usize>)>) -> Option<(Column<Any>, usize)> {
    match e {
        (ArgModel::Any(lc, lr), ArgModel::Any(rc, rr)) => {
            let l = bound_of(g, m, all_cells(g, None), lc, lr);
            let r = bound_of(g, m, all_cells(g, None), rc, rr);
            if l == Bound::Within && r == Bound::Outside {
                Some((rc, rr))
            } else if l == Bound::Outside && r == Bound::Within {
                Some((lc, lr))
            } else {
                None
            }
        },
        _ => None,
    }
}

/// The free cell of an edge for a group does not depend on which end of the edge is written
/// first: a cell outside the group's bounds joined to a cell within them is free, whichever of
/// the two ends it is, and no other cell of the edge is.
pub proof fn law_free_cell_either_end(a: ArgModel, b: ArgModel, g: Group, m: Seq<(RegionIndex, Option<usize>)>)
    ensures
        free_of((a, b), g, m) == free_of((b, a), g, m),
        a matches ArgModel::Any(ac, ar) ==> (b matches ArgModel::Any(bc, br) ==> (
            bound_of(g, m, all_cells(g, None), ac, ar) == Bound::Outside && bound_of(g, m, all_cells(g, None), bc, br) == Bound::Within
            ==> free_of((a, b), g, m) == Some((ac, ar)) && free_of((b, a), g, m) == Some((ac, ar)))),
        free_of((a, b), g, m) matches Some((c, r)) ==> (a == ArgModel::Any(c, r) || b == ArgModel::Any(c, r)),
{
}

/// The free cells of the edges for a group, in order.
pub open spec fn free_cells_of(es: Seq<(ArgModel, ArgModel)>, g: Group, m: Seq<(RegionIndex, Option<usize>)>) -> Seq<(Column<Any>, usize)>
    decreases es.len(),
{
    if es.len() == 0 {
        Seq::empty()
    } else {
        free_cells_of(es.drop_last(), g, m) + match free_of(es.last(), g, m) {
            Some(x) => seq![x],
            None => Seq::empty(),
        }
    }
}

/// The cells of the list that are of instance or advice columns, as group cells, in order.
pub open spec fn group_cells_of(v: Seq<(Column<Any>, usize)>) -> Seq<GroupCell>
    decreases v.len(),
{
    if v.len() == 0 {
        Seq::empty()
    } else {
        group_cells_of(v.drop_last()) + match tuple_cell(v.last()) {
            Some(c) => seq![c],
            None => Seq::empty(),
        }
    }
}

/// The free cells that a group finds among the edges, before any is lifted from the groups it
/// calls.
pub open spec fn initial_inputs(g: Group, m: Seq<(RegionIndex, Option<usize>)>, es: Seq<(ArgModel, ArgModel)>) -> Seq<GroupCell> {
    group_cells_of(free_cells_of(es, g, m))
}

/// Searches for cells in constraints that are not within the bounds of the group but the
/// other side of the equality is.
fn find_free_cells(group: &Group, region_by_index: &RegionByIndex, constraints: &EqConstraintGraph) -> (r: Vec<(Column<Any>, usize)>)
    requires
        rows_known(all_cells(*group, None), region_by_index.entries@),
    ensures
        r@ == free_cells_of(constraints.edge_models(), *group, region_by_index.entries@),
{
    let bounds = GroupBounds::new(group, region_by_index);
    let edges = constraints.edges();
    let ghost es = constraints.edge_models();
    let mut out: Vec<(Column<Any>, usize)> = Vec::new();
    let mut i: usize = 0;
    while i < edges.len()
        invariant
            es == constraints.edge_models(),
            edges@.len() == es.len(),
            forall|k: int| 0 <= k < edges@.len() ==> ends(#[trigger] edges@[k]) == oriented(es[k]),
            i <= es.len(),
            out@ == free_cells_of(es.take(i as int), *group, region_by_index.entries@),
            bounds.spec_group() == *group,
            forall|col: Column<Any>, row: usize| bounds.spec_check(col, row) == bound_of(*group, region_by_index.entries@, all_cells(*group, None), col, row),
        decreases es.len() - i,
    {
        let ghost prev = out@;
        proof {
            let e = es[i as int];
            assert(ends(edges@[i as int]) == oriented(e));
            match edges@[i as int] {
                EqConstraint::AnyToAny(..) => {},
                EqConstraint::FixedToConst(..) => {
                    assert(free_of(e, *group, region_by_index.entries@) is None);
                },
            }
        }
        match bounds.check_eq_constraint(&edges[i]) {
            EqConstraintCheck::AnyToAny(left, (lcol, lrow), right, (rcol, rrow)) => {
                if left == Bound::Within && right == Bound::Outside {
                    out.push((rcol, rrow));
                } else if left == Bound::Outside && right == Bound::Within {
                    out.push((lcol, lrow));
                }
            },
            EqConstraintCheck::FixedToConst(_) => {},
        }
        proof {
            assert(es.take(i + 1).drop_last() =~= es.take(i as int));
            assert(es.take(i + 1).last() == es[i as int]);
            assert(out@ =~= free_cells_of(es.take(i + 1), *group, region_by_index.entries@));
        }
        i = i + 1;
    }
    proof {
        assert(es.take(es.len() as int) =~= es);
    }
    out
}

/// Whether the cell is within the bounds of the group: in one of its regions, or one of its
/// inputs or outputs outside them.
pub open spec fn group_within(g: Group, m: Seq<(RegionIndex, Option<usize>)>, col: Column<Any>, row: usize) -> bool {
    in_regions(g, col, Some(row)) || produces(all_cells(g, None), all_cells(g, None).len() as int, g, m, true, col, row)
}

/// Some rank strictly decreases from each called group to its callers, so the groups call
/// each other without cycle.
pub open spec fn ranked(groups: Seq<Group>, rank: Seq<nat>) -> bool {
    &&& rank.len() == groups.len()
    &&& forall|c: int, j: int| 0 <= c < groups.len() && 0 <= j < groups[c].children@.len() && groups[c].children@[j] < groups.len()
        ==> rank[c] < rank[#[trigger] groups[c].children@[j] as int]
}

/// `b` raised to the power `e`.
pub open spec fn bpow(b: nat, e: nat) -> nat
    decreases e,
{
    if e == 0 {
        1
    } else {
        b * bpow(b, (e - 1) as nat)
    }
}

/// The sum of `b` raised to the rank of each group of the worklist.
pub open spec fn wsum(ws: Seq<usize>, rank: Seq<nat>, b: nat) -> nat
    decreases ws.len(),
{
    if ws.len() == 0 {
        0
    } else {
        wsum(ws.drop_last(), rank, b) + bpow(b, rank[ws.last() as int])
    }
}

proof fn lemma_wsum_front(ws: Seq<usize>, rank: Seq<nat>, b: nat)
    requires
        ws.len() > 0,
    ensures
        wsum(ws, rank, b) == bpow(b, rank[ws[0] as int]) + wsum(ws.drop_first(), rank, b),
    decreases ws.len(),
{
    if ws.len() > 1 {
        lemma_wsum_front(ws.drop_last(), rank, b);
        assert(ws.drop_last().drop_first() =~= ws.drop_first().drop_last());
        assert(ws.drop_first().last() == ws.last());
        assert(wsum(ws.drop_first(), rank, b) == wsum(ws.drop_first().drop_last(), rank, b) + bpow(b, rank[ws.last() as int]));
    } else {
        assert(ws.drop_first().len() == 0);
        assert(ws.drop_last().len() == 0);
        assert(wsum(ws.drop_last(), rank, b) == 0);
        assert(wsum(ws.drop_first(), rank, b) == 0);
    }
}

proof fn lemma_bpow_pos(b: nat, e: nat)
    requires
        b > 0,
    ensures
        bpow(b, e) >= 1,
    decreases e,
{
    if e > 0 {
        lemma_bpow_pos(b, (e - 1) as nat);
        assert(b * bpow(b, (e - 1) as nat) >= 1) by (nonlinear_arith)
            requires b >= 1, bpow(b, (e - 1) as nat) >= 1;
    }
}

proof fn lemma_bpow_mono(b: nat, e1: nat, e2: nat)
    requires
        b > 0,
        e1 <= e2,
    ensures
        bpow(b, e1) <= bpow(b, e2),
    decreases e2,
{
    if e1 < e2 {
        lemma_bpow_mono(b, e1, (e2 - 1) as nat);
        lemma_bpow_pos(b, (e2 - 1) as nat);
        assert(bpow(b, (e2 - 1) as nat) <= b * bpow(b, (e2 - 1) as nat)) by (nonlinear_arith)
            requires b >= 1, bpow(b, (e2 - 1) as nat) >= 1;
    }
}

/// A copy of a list of cells.
fn copy_cells(v: &Vec<GroupCell>) -> (r: Vec<GroupCell>)
    ensures
        r@ == v@,
{
    let mut out: Vec<GroupCell> = Vec::new();
    let mut i: usize = 0;
    while i < v.len()
        invariant
            i <= v@.len(),
            out@ == v@.take(i as int),
        decreases v@.len() - i,
    {
        out.push(v[i]);
        i = i + 1;
        proof {
            assert(out@ =~= v@.take(i as int));
        }
    }
    proof {
        assert(v@.take(v@.len() as int) =~= v@);
    }
    out
}

/// The cells of the list, of an instance or advice column, as group cells, in order.
fn to_group_cells(v: Vec<(Column<Any>, usize)>) -> (r: Vec<GroupCell>)
    ensures
        r@ == group_cells_of(v@),
        forall|i: int| 0 <= i < r@.len() ==> !(#[trigger] r@[i] is Assigned),
{
    let mut out: Vec<GroupCell> = Vec::new();
    let mut i: usize = 0;
    while i < v.len()
        invariant
            i <= v@.len(),
            out@ == group_cells_of(v@.take(i as int)),
            forall|k: int| 0 <= k < out@.len() ==> !(#[trigger] out@[k] is Assigned),
        decreases v@.len() - i,
    {
        proof {
            assert(v@.take(i + 1).drop_last() =~= v@.take(i as int));
            assert(v@.take(i + 1).last() == v@[i as int]);
        }
        match GroupCell::from_tuple(v[i]) {
            Some(c) => out.push(c),
            None => {},
        }
        i = i + 1;
        proof {
            assert(out@ =~= group_cells_of(v@.take(i as int)));
        }
    }
    proof {
        assert(v@.take(i as int) =~= v@);
    }
    out
}

/// The cells of the list that are outside the bounds.
fn out_of_bounds(cells: &Vec<GroupCell>, bounds: &GroupBounds) -> (r: Vec<GroupCell>)
    ensures
        forall|x: GroupCell| r@.contains(x) <==> cells@.contains(x) && !bounds.spec_within(cell_col(x), cell_row(x)),
{
    let mut out: Vec<GroupCell> = Vec::new();
    let mut i: usize = 0;
    while i < cells.len()
        invariant
            i <= cells@.len(),
            forall|x: GroupCell| out@.contains(x) <==> cells@.take(i as int).contains(x) && !bounds.spec_within(cell_col(x), cell_row(x)),
        decreases cells@.len() - i,
    {
        let c = cells[i];
        let ghost before = out@;
        if !bounds.within_bounds(&c.col(), &c.row()) {
            out.push(c);
        }
        proof {
            assert forall|x: GroupCell| out@.contains(x) <==> cells@.take(i + 1).contains(x) && !bounds.spec_within(cell_col(x), cell_row(x)) by {
                assert(cells@.take(i + 1) =~= cells@.take(i as int).push(c));
                if out@.contains(x) {
                    let k = choose|k: int| 0 <= k < out@.len() && out@[k] == x;
                    if k < before.len() {
                        assert(before[k] == x);
                        assert(before.contains(x));
                        assert(cells@.take(i as int).contains(x));
                        let j = choose|j: int| 0 <= j < i && cells@.take(i as int)[j] == x;
                        assert(cells@.take(i + 1)[j] == x);
                    } else {
                        assert(x == c);
                        assert(cells@.take(i + 1)[i as int] == x);
                    }
                }
                if cells@.take(i + 1).contains(x) && !bounds.spec_within(cell_col(x), cell_row(x)) {
                    let k = choose|k: int| #![trigger cells@.take(i + 1)[k]] 0 <= k < i + 1 && cells@.take(i + 1)[k] == x;
                    if k < i {
                        assert(cells@.take(i as int)[k] == x);
                        assert(cells@.take(i as int).contains(x));
                        assert(before.contains(x));
                        let j = choose|j: int| 0 <= j < before.len() && before[j] == x;
                        assert(out@[j] == x);
                    } else {
                        assert(out@[before.len() as int] == x);
                    }
                }
            }
        }
        i = i + 1;
    }
    proof {
        assert(cells@.take(cells@.len() as int) =~= cells@);
    }
    out
}

/// Callsite `s` of group `c` is the first at which `c` calls a group of the list.
pub open spec fn first_call(groups: Seq<Group>, c: int, s: int) -> bool {
    &&& 0 <= c < groups.len()
    &&& 0 <= s < groups[c].children@.len()
    &&& groups[c].children@[s] < groups.len()
    &&& forall|j: int| 0 <= j < s ==> groups[c].children@[j] != groups[c].children@[s]
}

/// The cells lifted into the inputs of the group that group `c` calls at callsite `s` are
/// passed at that callsite, all of them and in their order as the last arguments, and those
/// outside the bounds of `c` are inputs of `c` too.
pub open spec fn propagated(groups: Seq<Group>, m: Seq<(RegionIndex, Option<usize>)>, r: Seq<FreeCells>, c: int, s: int) -> bool {
    let k = groups[c].children@[s] as int;
    &&& r[k].inputs@.is_suffix_of(r[c].callsites@[s]@)
    &&& forall|x: GroupCell| #[trigger] r[k].inputs@.contains(x) ==> r[c].callsites@[s]@.contains(x)
        && (!group_within(groups[c], m, cell_col(x), cell_row(x)) ==> r[c].inputs@.contains(x))
}

/// The cell is an input of group `c` for a reason: it is one of the group's own free cells, or
/// it lies outside the group's bounds and is an input of a group that `c` calls.
pub open spec fn lifted_input(
    groups: Seq<Group>,
    m: Seq<(RegionIndex, Option<usize>)>,
    es: Seq<(ArgModel, ArgModel)>,
    r: Seq<FreeCells>,
    c: int,
    x: GroupCell,
) -> bool {
    ||| initial_inputs(groups[c], m, es).contains(x)
    ||| !group_within(groups[c], m, cell_col(x), cell_row(x)) && exists|s: int| #[trigger] first_call(groups, c, s)
        && r[groups[c].children@[s] as int].inputs@.contains(x)
}

/// The callsite has been brought up to date, or the group it calls is still to be visited.
pub open spec fn call_done(
    groups: Seq<Group>,
    m: Seq<(RegionIndex, Option<usize>)>,
    r: Seq<FreeCells>,
    pending: Seq<usize>,
    c: int,
    s: int,
) -> bool {
    first_call(groups, c, s) ==> pending.contains(groups[c].children@[s]) || propagated(groups, m, r, c, s)
}

/// What was propagated stays propagated while the callsite and the callee's inputs stay and
/// the caller's inputs grow.
proof fn lemma_propagated_grows(
    groups: Seq<Group>,
    m: Seq<(RegionIndex, Option<usize>)>,
    r0: Seq<FreeCells>,
    r1: Seq<FreeCells>,
    c: int,
    s: int,
)
    requires
        propagated(groups, m, r0, c, s),
        r0[groups[c].children@[s] as int].inputs@ == r1[groups[c].children@[s] as int].inputs@,
        r0[c].callsites@[s]@ == r1[c].callsites@[s]@,
        forall|x: GroupCell| r0[c].inputs@.contains(x) ==> r1[c].inputs@.contains(x),
    ensures
        propagated(groups, m, r1, c, s),
{
    let k = groups[c].children@[s] as int;
    assert forall|x: GroupCell| #[trigger] r1[k].inputs@.contains(x) implies r1[c].callsites@[s]@.contains(x)
        && (!group_within(groups[c], m, cell_col(x), cell_row(x)) ==> r1[c].inputs@.contains(x)) by {
        assert(r0[k].inputs@.contains(x));
    }
}

/// An element of a list is an element of the list extended.
proof fn lemma_contains_append<A>(a: Seq<A>, b: Seq<A>)
    ensures
        forall|x: A| a.contains(x) ==> (a + b).contains(x),
        forall|x: A| b.contains(x) ==> (a + b).contains(x),
{
    assert forall|x: A| a.contains(x) implies (a + b).contains(x) by {
        let i = choose|i: int| 0 <= i < a.len() && a[i] == x;
        assert((a + b)[i] == x);
    }
    assert forall|x: A| b.contains(x) implies (a + b).contains(x) by {
        let i = choose|i: int| 0 <= i < b.len() && b[i] == x;
        assert((a + b)[a.len() + i] == x);
    }
}

/// Check for cells in the equality constraints that are not bounded by IO and are not part of
/// the regions in the group. These are added as part of the inputs of the group, and the
/// callsites to the group are updated; then the callers are updated in turn, until nothing
/// changes.
///
/// Returns, for each group, the cells to add to its inputs and to the arguments of each of its
/// callsites: the inputs start with the group's own free cells (see [`initial_inputs`]); at
/// the first callsite at which a group calls another, the inputs lifted into the callee are
/// the last arguments passed, in their order, and each of them outside the bounds of the
/// caller (see [`group_within`]) is an input of the caller too; the other callsites get no
/// argument.
pub fn lift_free_cells_to_inputs(groups: &[Group], region_by_index: &RegionByIndex, constraints: &EqConstraintGraph) -> (r: Vec<FreeCells>)
    requires
        exists|rank: Seq<nat>| ranked(groups@, rank),
        forall|g: int| 0 <= g < groups@.len() ==> rows_known(all_cells(#[trigger] groups@[g], None), region_by_index.entries@),
    ensures
        r@.len() == groups@.len(),
        forall|i: int| 0 <= i < r@.len() ==> (#[trigger] r@[i]).callsites@.len() == groups@[i].children@.len(),
        forall|i: int, k: int| 0 <= i < r@.len() && 0 <= k < r@[i].inputs@.len() ==> !(#[trigger] r@[i].inputs@[k] is Assigned),
        forall|i: int| 0 <= i < r@.len() ==> initial_inputs(groups@[i], region_by_index.entries@, constraints.edge_models())
            .is_prefix_of(#[trigger] r@[i].inputs@),
        forall|c: int, s: int| #[trigger] first_call(groups@, c, s) ==> propagated(groups@, region_by_index.entries@, r@, c, s),
        forall|c: int, s: int| 0 <= c < r@.len() && 0 <= s < r@[c].callsites@.len() && !first_call(groups@, c, s)
            ==> (#[trigger] r@[c].callsites@[s])@.len() == 0,
        forall|c: int, x: GroupCell| 0 <= c < r@.len() && #[trigger] r@[c].inputs@.contains(x) ==> lifted_input(groups@,
            region_by_index.entries@, constraints.edge_models(), r@, c, x),
        forall|c: int, s: int, x: GroupCell| 0 <= c < r@.len() && 0 <= s < r@[c].callsites@.len()
            && groups@[c].children@[s] < groups@.len() && #[trigger] r@[c].callsites@[s]@.contains(x) ==> r@[groups@[c].children@[s] as int].inputs@.contains(x),
{
    let ghost rank = choose|rank: Seq<nat>| ranked(groups@, rank);
    let ghost b: nat = (groups@.len() + 1) as nat;
    let ghost m = region_by_index.entries@;
    let ghost es = constraints.edge_models();
    let ghost gs = groups@;
    let n = groups.len();
    let mut result: Vec<FreeCells> = Vec::new();
    let mut g: usize = 0;
    while g < n
        invariant
            n == groups@.len(),
            gs == groups@,
            m == region_by_index.entries@,
            es == constraints.edge_models(),
            g <= n,
            result@.len() == g,
            forall|i: int| 0 <= i < g ==> (#[trigger] result@[i]).callsites@.len() == groups@[i].children@.len(),
            forall|i: int, k: int| 0 <= i < g && 0 <= k < result@[i].inputs@.len() ==> !(#[trigger] result@[i].inputs@[k] is Assigned),
            forall|g: int| 0 <= g < groups@.len() ==> rows_known(all_cells(#[trigger] groups@[g], None), region_by_index.entries@),
            forall|i: int| 0 <= i < g ==> (#[trigger] result@[i]).inputs@ == initial_inputs(gs[i], m, es),
            forall|i: int, s: int| 0 <= i < g && 0 <= s < result@[i].callsites@.len() ==> (#[trigger] result@[i].callsites@[s])@.len() == 0,
        decreases n - g,
    {
        let group = &groups[g];
        assert(rows_known(all_cells(groups@[g as int], None), region_by_index.entries@));
        let fc = to_group_cells(find_free_cells(group, region_by_index, constraints));
        let mut callsites: Vec<Vec<GroupCell>> = Vec::new();
        let mut k: usize = 0;
        while k < group.children.len()
            invariant
                k <= group.children@.len(),
                callsites@.len() == k,
                forall|s: int| 0 <= s < k ==> (#[trigger] callsites@[s])@.len() == 0,
            decreases group.children@.len() - k,
        {
            callsites.push(Vec::new());
            k = k + 1;
        }
        result.push(FreeCells { inputs: fc, callsites });
        g = g + 1;
    }
    let mut worklist: Vec<usize> = Vec::new();
    let mut i: usize = 0;
    while i < n
        invariant
            n == groups@.len(),
            i <= n,
            result@.len() == n,
            forall|k: int| 0 <= k < worklist@.len() ==> worklist@[k] < n,
            forall|i: int| 0 <= i < n ==> (#[trigger] result@[i]).callsites@.len() == groups@[i].children@.len(),
            forall|i: int, k: int| 0 <= i < n && 0 <= k < result@[i].inputs@.len() ==> !(#[trigger] result@[i].inputs@[k] is Assigned),
            forall|k: int| 0 <= k < i && (#[trigger] result@[k]).inputs@.len() > 0 ==> worklist@.contains(k as usize),
            gs == groups@,
            m == region_by_index.entries@,
            es == constraints.edge_models(),
            forall|i: int| 0 <= i < n ==> (#[trigger] result@[i]).inputs@ == initial_inputs(gs[i], m, es),
            forall|i: int, s: int| 0 <= i < n && 0 <= s < result@[i].callsites@.len() ==> (#[trigger] result@[i].callsites@[s])@.len() == 0,
        decreases n - i,
    {
        let ghost w0 = worklist@;
        if result[i].inputs.len() > 0 {
            worklist.push(i);
            proof {
                assert(worklist@[worklist@.len() - 1] == i);
            }
        }
        proof {
            assert forall|k: int| 0 <= k < i + 1 && (#[trigger] result@[k]).inputs@.len() > 0 implies worklist@.contains(k as usize) by {
                if k < i {
                    let j = choose|j: int| 0 <= j < w0.len() && w0[j] == k as usize;
                    assert(worklist@[j] == k as usize);
                }
            }
        }
        i = i + 1;
    }
    proof {
        assert(worklist@.skip(0) =~= worklist@);
        assert forall|c: int, s: int| #[trigger] call_done(gs, m, result@, worklist@.skip(0), c, s) by {
            if first_call(gs, c, s) {
                let k = gs[c].children@[s] as int;
                if result@[k].inputs@.len() == 0 {
                    assert forall|x: GroupCell| #[trigger] result@[k].inputs@.contains(x) implies false by {}
                    let cs = result@[c].callsites@[s]@;
                    assert(result@[k].inputs@ =~= cs.subrange(cs.len() as int, cs.len() as int));
                }
            }
        }
        assert forall|i: int| 0 <= i < n implies initial_inputs(gs[i], m, es).is_prefix_of(#[trigger] result@[i].inputs@) by {
            assert(result@[i].inputs@.subrange(0, result@[i].inputs@.len() as int) =~= result@[i].inputs@);
        }
        assert forall|c: int, x: GroupCell| 0 <= c < n && #[trigger] result@[c].inputs@.contains(x) implies lifted_input(gs, m, es, result@, c, x) by {
            assert(result@[c].inputs@ == initial_inputs(gs[c], m, es));
        }
    }
    let mut head: usize = 0;
    while head < worklist.len()
        invariant
            n == groups@.len(),
            gs == groups@,
            m == region_by_index.entries@,
            es == constraints.edge_models(),
            ranked(groups@, rank),
            b == n + 1,
            head <= worklist@.len(),
            result@.len() == n,
            forall|k: int| 0 <= k < worklist@.len() ==> worklist@[k] < n,
            forall|i: int| 0 <= i < n ==> (#[trigger] result@[i]).callsites@.len() == groups@[i].children@.len(),
            forall|i: int, k: int| 0 <= i < n && 0 <= k < result@[i].inputs@.len() ==> !(#[trigger] result@[i].inputs@[k] is Assigned),
            forall|g: int| 0 <= g < groups@.len() ==> rows_known(all_cells(#[trigger] groups@[g], None), region_by_index.entries@),
            forall|i: int| 0 <= i < n ==> initial_inputs(gs[i], m, es).is_prefix_of(#[trigger] result@[i].inputs@),
            forall|c: int, s: int| #[trigger] call_done(gs, m, result@, worklist@.skip(head as int), c, s),
            forall|c: int, s: int, x: GroupCell| 0 <= c < n && 0 <= s < result@[c].callsites@.len()
                && gs[c].children@[s] < n && #[trigger] result@[c].callsites@[s]@.contains(x) ==> result@[gs[c].children@[s] as int].inputs@.contains(x),
            forall|c: int, x: GroupCell| 0 <= c < n && #[trigger] result@[c].inputs@.contains(x) ==> lifted_input(gs, m, es, result@, c, x),
            forall|c: int, s: int| 0 <= c < n && 0 <= s < result@[c].callsites@.len() && !first_call(gs, c, s)
                ==> (#[trigger] result@[c].callsites@[s])@.len() == 0,
        decreases wsum(worklist@.skip(head as int), rank, b),
    {
        let callee_idx = worklist[head];
        let ghost w0 = wsum(worklist@.skip(head as int), rank, b);
        let ghost p = rank[callee_idx as int];
        proof {
            lemma_wsum_front(worklist@.skip(head as int), rank, b);
            assert(worklist@.skip(head as int).drop_first() =~= worklist@.skip(head + 1));
            let before = worklist@.skip(head as int);
            assert(before =~= seq![callee_idx] + worklist@.skip(head + 1));
            assert forall|c: int, s: int| #[trigger] call_done(gs, m, result@, worklist@.skip(head + 1), c, s)
                || (gs[c].children@[s] == callee_idx && 0 <= c) by {
                assert(call_done(gs, m, result@, before, c, s));
                if first_call(gs, c, s) && before.contains(gs[c].children@[s]) && gs[c].children@[s] != callee_idx {
                    let j = choose|j: int| 0 <= j < before.len() && before[j] == gs[c].children@[s];
                    assert(j > 0);
                    assert(worklist@.skip(head + 1)[j - 1] == gs[c].children@[s]);
                }
            }
        }
        head = head + 1;
        let ghost q: nat = if p > 0 { bpow(b, (p - 1) as nat) } else { 0 };
        let ghost pushed: nat = 0;
        let mut caller_idx: usize = 0;
        while caller_idx < n
            invariant
                n == groups@.len(),
                gs == groups@,
                m == region_by_index.entries@,
                es == constraints.edge_models(),
                ranked(groups@, rank),
                b == n + 1,
                callee_idx < n,
                p == rank[callee_idx as int],
                q == (if p > 0 { bpow(b, (p - 1) as nat) } else { 0 }),
                caller_idx <= n,
                head <= worklist@.len(),
                result@.len() == n,
                forall|k: int| 0 <= k < worklist@.len() ==> worklist@[k] < n,
                forall|i: int| 0 <= i < n ==> (#[trigger] result@[i]).callsites@.len() == groups@[i].children@.len(),
                forall|i: int, k: int| 0 <= i < n && 0 <= k < result@[i].inputs@.len() ==> !(#[trigger] result@[i].inputs@[k] is Assigned),
                forall|g: int| 0 <= g < groups@.len() ==> rows_known(all_cells(#[trigger] groups@[g], None), region_by_index.entries@),
                forall|i: int| 0 <= i < n ==> initial_inputs(gs[i], m, es).is_prefix_of(#[trigger] result@[i].inputs@),
                forall|c: int, s: int| #[trigger] call_done(gs, m, result@, worklist@.skip(head as int), c, s)
                    || (gs[c].children@[s] == callee_idx && c >= caller_idx),
                forall|c: int, s: int, x: GroupCell| 0 <= c < n && 0 <= s < result@[c].callsites@.len()
                    && gs[c].children@[s] < n && #[trigger] result@[c].callsites@[s]@.contains(x) ==> result@[gs[c].children@[s] as int].inputs@.contains(x),
                forall|c: int, x: GroupCell| 0 <= c < n && #[trigger] result@[c].inputs@.contains(x) ==> lifted_input(gs, m, es, result@, c, x),
                forall|c: int, s: int| 0 <= c < n && 0 <= s < result@[c].callsites@.len() && !first_call(gs, c, s)
                    ==> (#[trigger] result@[c].callsites@[s])@.len() == 0,
                wsum(worklist@.skip(head as int), rank, b) == w0 - bpow(b, p) + pushed,
                pushed <= caller_idx * q,
            decreases n - caller_idx,
        {
            let caller = &groups[caller_idx];
            let ghost r0 = result@;
            let ghost pend0 = worklist@.skip(head as int);
            let ghost ci = caller_idx as int;
            match caller.has_child(callee_idx) {
                None => {
                    proof {
                        assert forall|c: int, s: int| #[trigger] call_done(gs, m, result@, worklist@.skip(head as int), c, s)
                            || (gs[c].children@[s] == callee_idx && c >= caller_idx + 1) by {
                            if c == ci && 0 <= s < gs[c].children@.len() {
                                assert(gs[c].children@[s] != callee_idx);
                            }
                        }
                    }
                },
                Some(cs) => {
                    proof {
                        assert(rank[caller_idx as int] < rank[groups@[caller_idx as int].children@[cs as int] as int]);
                    }
                    let inputs = copy_cells(&result[callee_idx].inputs);
                    let mut extra = copy_cells(&inputs);
                    result[caller_idx].callsites[cs].append(&mut extra);
                    let ghost r1 = result@;
                    assert(rows_known(all_cells(groups@[caller_idx as int], None), region_by_index.entries@));
                    let bounds = GroupBounds::new(caller, region_by_index);
                    let mut oob = out_of_bounds(&inputs, &bounds);
                    proof {
                        assert forall|k: int| 0 <= k < oob@.len() implies !(#[trigger] oob@[k] is Assigned) by {
                            assert(oob@.contains(oob@[k]));
                            let j = choose|j: int| 0 <= j < inputs@.len() && inputs@[j] == oob@[k];
                            assert(result@[callee_idx as int].inputs@[j] == oob@[k]);
                        }
                    }
                    let ghost oob0 = oob@;
                    let grew = oob.len() > 0;
                    if grew {
                        let ghost before_inputs = result@[caller_idx as int].inputs@;
                        result[caller_idx].inputs.append(&mut oob);
                        proof {
                            assert forall|k: int| 0 <= k < result@[caller_idx as int].inputs@.len() implies !(#[trigger] result@[caller_idx as int].inputs@[k] is Assigned) by {
                                if k < before_inputs.len() {
                                    assert(result@[caller_idx as int].inputs@[k] == before_inputs[k]);
                                }
                            }
                        }
                        let ghost before = worklist@.skip(head as int);
                        worklist.push(caller_idx);
                        proof {
                            assert(worklist@.skip(head as int) =~= before.push(caller_idx));
                            assert(worklist@.skip(head as int).drop_last() =~= before);
                            lemma_bpow_mono(b, rank[caller_idx as int], (p - 1) as nat);
                            pushed = pushed + bpow(b, rank[caller_idx as int]);
                        }
                    }
                    proof {
                        let r2 = result@;
                        let pend2 = worklist@.skip(head as int);
                        let k0 = callee_idx as int;
                        assert(ci != k0);
                        assert(r1[ci].callsites@[cs as int]@ == r0[ci].callsites@[cs as int]@ + r0[k0].inputs@);
                        lemma_contains_append(r0[ci].callsites@[cs as int]@, r0[k0].inputs@);
                        if grew {
                            assert(r2[ci].inputs@ == r0[ci].inputs@ + oob0);
                            lemma_contains_append(r0[ci].inputs@, oob0);
                            assert(pend2 =~= pend0.push(caller_idx));
                            assert(pend2[pend0.len() as int] == caller_idx);
                        } else {
                            assert(r2[ci].inputs@ == r0[ci].inputs@);
                            assert(pend2 == pend0);
                        }
                        assert forall|k: usize| pend0.contains(k) implies pend2.contains(k) by {
                            if grew {
                                let j = choose|j: int| 0 <= j < pend0.len() && pend0[j] == k;
                                assert(pend2[j] == k);
                            }
                        }
                        assert forall|i: int| 0 <= i < n && i != ci implies r2[i] == r0[i] by {}
                        assert forall|s: int| 0 <= s < r0[ci].callsites@.len() && s != cs implies r2[ci].callsites@[s] == r0[ci].callsites@[s] by {}
                        // The caller's inputs keep what they had.
                        assert forall|i: int| 0 <= i < n implies initial_inputs(gs[i], m, es).is_prefix_of(#[trigger] r2[i].inputs@) by {
                            if i == ci && grew {
                                let ini = initial_inputs(gs[i], m, es);
                                assert(ini.is_prefix_of(r0[i].inputs@));
                                assert(r2[i].inputs@.subrange(0, ini.len() as int) =~= r0[i].inputs@.subrange(0, ini.len() as int));
                            }
                        }
                        assert forall|c: int, s: int| #[trigger] call_done(gs, m, r2, pend2, c, s)
                            || (gs[c].children@[s] == callee_idx && c >= caller_idx + 1) by {
                            if first_call(gs, c, s) {
                                let k = gs[c].children@[s] as int;
                                if c == ci && k == k0 {
                                    assert(s == cs);
                                    let before = r0[ci].callsites@[cs as int]@;
                                    let after = r2[ci].callsites@[cs as int]@;
                                    assert(r2[k0] == r0[k0]);
                                    assert(after.subrange(before.len() as int, after.len() as int) =~= r0[k0].inputs@);
                                    assert forall|x: GroupCell| #[trigger] r2[k].inputs@.contains(x) implies r2[c].callsites@[s]@.contains(x)
                                        && (!group_within(gs[c], m, cell_col(x), cell_row(x)) ==> r2[c].inputs@.contains(x)) by {
                                        assert(r0[k].inputs@.contains(x));
                                        assert(inputs@.contains(x));
                                        if !group_within(gs[c], m, cell_col(x), cell_row(x)) {
                                            assert(oob0.contains(x));
                                        }
                                    }
                                } else {
                                    assert(call_done(gs, m, r0, pend0, c, s) || (k == k0 && c > ci));
                                    if !(k == k0 && c > ci) && !pend0.contains(k as usize) {
                                        assert(propagated(gs, m, r0, c, s));
                                        if k == ci && grew {
                                            assert(pend2.contains(k as usize));
                                        } else {
                                            assert(r0[k].inputs@ == r2[k].inputs@);
                                            if c == ci {
                                                assert(s != cs);
                                            } else {
                                                assert(r2[c] == r0[c]);
                                            }
                                            assert(r0[c].callsites@[s]@ == r2[c].callsites@[s]@);
                                            lemma_propagated_grows(gs, m, r0, r2, c, s);
                                        }
                                    }
                                    if pend0.contains(k as usize) {
                                        assert(pend2.contains(k as usize));
                                    }
                                }
                            }
                        }
                        assert forall|c: int, s: int, x: GroupCell| 0 <= c < n && 0 <= s < r2[c].callsites@.len()
                            && gs[c].children@[s] < n && #[trigger] r2[c].callsites@[s]@.contains(x) implies r2[gs[c].children@[s] as int].inputs@.contains(x) by {
                            let k = gs[c].children@[s] as int;
                            if k != ci {
                                assert(r2[k] == r0[k]);
                            }
                            if c != ci {
                                assert(r2[c] == r0[c]);
                            }
                            if c == ci && s == cs {
                                if r0[c].callsites@[s]@.contains(x) {
                                    assert(r0[k].inputs@.contains(x));
                                } else {
                                    let j = choose|j: int| 0 <= j < r2[c].callsites@[s]@.len() && r2[c].callsites@[s]@[j] == x;
                                    assert(j >= r0[c].callsites@[s]@.len());
                                    assert(r0[k0].inputs@[j - r0[c].callsites@[s]@.len()] == x);
                                    assert(r0[k0].inputs@.contains(x));
                                }
                            } else {
                                assert(r0[c].callsites@[s]@.contains(x));
                                assert(r0[k].inputs@.contains(x));
                            }
                            if k == ci && grew {
                                assert(r2[k].inputs@.contains(x));
                            }
                        }
                        assert(first_call(gs, ci, cs as int));
                        assert forall|c: int, s: int| 0 <= c < n && 0 <= s < r2[c].callsites@.len() && !first_call(gs, c, s)
                            implies (#[trigger] r2[c].callsites@[s])@.len() == 0 by {
                            if c != ci {
                                assert(r2[c] == r0[c]);
                            }
                            assert(r0[c].callsites@[s]@.len() == 0);
                        }
                        assert forall|c: int, x: GroupCell| 0 <= c < n && #[trigger] r2[c].inputs@.contains(x) implies lifted_input(gs, m, es, r2, c, x) by {
                            if c != ci {
                                assert(r2[c] == r0[c]);
                            }
                            if c == ci && grew && !r0[c].inputs@.contains(x) {
                                let j = choose|j: int| 0 <= j < r2[c].inputs@.len() && r2[c].inputs@[j] == x;
                                assert(j >= r0[c].inputs@.len());
                                assert(oob0[j - r0[c].inputs@.len()] == x);
                                assert(oob0.contains(x));
                                assert(inputs@.contains(x));
                                assert(r2[k0] == r0[k0]);
                                assert(r2[gs[c].children@[cs as int] as int].inputs@.contains(x));
                            } else {
                                assert(r0[c].inputs@.contains(x));
                                assert(lifted_input(gs, m, es, r0, c, x));
                                if !initial_inputs(gs[c], m, es).contains(x) {
                                    let s = choose|s: int| #[trigger] first_call(gs, c, s) && r0[gs[c].children@[s] as int].inputs@.contains(x);
                                    let k = gs[c].children@[s] as int;
                                    if k != ci {
                                        assert(r2[k] == r0[k]);
                                    }
                                    assert(r2[k].inputs@.contains(x));
                                }
                            }
                        }
                    }
                },
            }
            proof {
                assert(pushed <= (caller_idx + 1) * q) by (nonlinear_arith)
                    requires pushed <= caller_idx * q + q;
            }
            caller_idx = caller_idx + 1;
        }
        proof {
            if p > 0 {
                lemma_bpow_pos(b, (p - 1) as nat);
                assert(bpow(b, p) == b * q);
                assert(n * q < b * q) by (nonlinear_arith)
                    requires q >= 1, b == n + 1;
            } else {
                assert(bpow(b, p) == 1);
            }
            assert forall|c: int, s: int| #[trigger] call_done(gs, m, result@, worklist@.skip(head as int), c, s) by {
                assert(call_done(gs, m, result@, worklist@.skip(head as int), c, s)
                    || (gs[c].children@[s] == callee_idx && c >= n));
            }
        }
    }
    proof {
        assert forall|c: int, s: int| #[trigger] first_call(groups@, c, s) implies propagated(gs, m, result@, c, s) by {
            assert(call_done(gs, m, result@, worklist@.skip(head as int), c, s));
            assert(worklist@.skip(head as int).len() == 0);
        }
    }
    result
}

} // verus!

//! Generation of the IR from what synthesis recorded.

pub mod free_cells;
pub mod patterns;

use vstd::prelude::*;
use crate::ir::generate::free_cells::FreeCells;
use crate::ir::groups::{CallSite, ExpressionInRow, GroupBody, body_of, crosses_unexpectedly};
use crate::ir::groups::bounds::{all_cells, rows_known};
use crate::ir::stmt::{IRStmt, StmtSeq};
use crate::synthesis::regions::data::RegionData;
use crate::synthesis::constraint::EqConstraintGraph;
use crate::synthesis::groups::{Group, GroupRegion, RegionByIndex};
use crate::synthesis::regions::RegionIndex;
use crate::synthesis::regions::region_row::RegionRow;
use crate::lookups::Lookup;

verus! {

/// Configuration parameters for IR generation: whether to emit debug comments, and the
/// callbacks for lookups and gates, if any (the defaults otherwise).
#[derive(Debug)]
pub struct IRGenParams<L, G> {
    debug_comments: bool,
    lookup_cb: Option<L>,
    gate_cb: Option<G>,
}

impl<L, G> IRGenParams<L, G> {
    /// Whether debug comments are enabled.
    pub closed spec fn spec_debug_comments(&self) -> bool {
        self.debug_comments
    }

    /// The lookup callbacks, if set.
    pub closed spec fn spec_lookup_cb(&self) -> Option<L> {
        self.lookup_cb
    }

    /// The callbacks used for gates, if set.
    pub closed spec fn spec_gate_cb(&self) -> Option<G> {
        self.gate_cb
    }

    /// No debug comments and the default callbacks.
    pub fn new() -> (r: Self)
        ensures
            !r.spec_debug_comments(),
            r.spec_lookup_cb() is None,
            r.spec_gate_cb() is None,
    {
        IRGenParams { debug_comments: false, lookup_cb: None, gate_cb: None }
    }

    /// Returns whether debug comments are enabled or not.
    pub fn debug_comments(&self) -> (r: bool)
        ensures
            r == self.spec_debug_comments(),
    {
        self.debug_comments
    }

    /// The lookup callbacks, if set.
    pub fn lookup_cb(&self) -> (r: &Option<L>)
        ensures
            *r == self.spec_lookup_cb(),
    {
        &self.lookup_cb
    }

    /// The callbacks used for gates, if set.
    pub fn gate_cb(&self) -> (r: &Option<G>)
        ensures
            *r == self.spec_gate_cb(),
    {
        &self.gate_cb
    }
}

/// Builder for creating [`IRGenParams`].
#[derive(Debug)]
pub struct IRGenParamsBuilder<L, G>(IRGenParams<L, G>);

impl<L, G> IRGenParamsBuilder<L, G> {
    /// The parameters being built.
    pub closed spec fn params(&self) -> IRGenParams<L, G> {
        self.0
    }

    /// Creates a new builder, with the default parameters.
    pub fn new() -> (r: Self)
        ensures
            !r.params().spec_debug_comments(),
            r.params().spec_lookup_cb() is None,
            r.params().spec_gate_cb() is None,
    {
        IRGenParamsBuilder(IRGenParams::new())
    }

    /// Enables debug comments.
    pub fn with_debug_comments(&mut self) -> (r: &mut Self)
        ensures
            r.params().spec_debug_comments(),
            r.params().spec_lookup_cb() == old(self).params().spec_lookup_cb(),
            r.params().spec_gate_cb() == old(self).params().spec_gate_cb(),
            *final(self) == *final(r),
    {
        self.0.debug_comments = true;
        self
    }

    /// Disables debug comments.
    pub fn without_debug_comments(&mut self) -> (r: &mut Self)
        ensures
            !r.params().spec_debug_comments(),
            r.params().spec_lookup_cb() == old(self).params().spec_lookup_cb(),
            r.params().spec_gate_cb() == old(self).params().spec_gate_cb(),
            *final(self) == *final(r),
    {
        self.0.debug_comments = false;
        self
    }

    /// Sets the lookup callbacks.
    pub fn lookup_callbacks(&mut self, lc: L) -> (r: &mut Self)
        ensures
            r.params().spec_lookup_cb() == Some(lc),
            r.params().spec_debug_comments() == old(self).params().spec_debug_comments(),
            r.params().spec_gate_cb() == old(self).params().spec_gate_cb(),
            *final(self) == *final(r),
    {
        self.0.lookup_cb = Some(lc);
        self
    }

    /// Unsets the lookup callbacks.
    pub fn no_lookup_callbacks(&mut self) -> (r: &mut Self)
        ensures
            r.params().spec_lookup_cb() is None,
            r.params().spec_debug_comments() == old(self).params().spec_debug_comments(),
            r.params().spec_gate_cb() == old(self).params().spec_gate_cb(),
            *final(self) == *final(r),
    {
        self.0.lookup_cb = None;
        self
    }

    /// Sets the callbacks used for gates.
    pub fn gate_callbacks(&mut self, gc: G) -> (r: &mut Self)
        ensures
            r.params().spec_gate_cb() == Some(gc),
            r.params().spec_debug_comments() == old(self).params().spec_debug_comments(),
            r.params().spec_lookup_cb() == old(self).params().spec_lookup_cb(),
            *final(self) == *final(r),
    {
        self.0.gate_cb = Some(gc);
        self
    }

    /// Unsets the callbacks used for gates.
    pub fn no_gate_callbacks(&mut self) -> (r: &mut Self)
        ensures
            r.params().spec_gate_cb() is None,
            r.params().spec_debug_comments() == old(self).params().spec_debug_comments(),
            r.params().spec_lookup_cb() == old(self).params().spec_lookup_cb(),
            *final(self) == *final(r),
    {
        self.0.gate_cb = None;
        self
    }

    /// Creates the params, and leaves the builder with the default ones.
    pub fn build(&mut self) -> (r: IRGenParams<L, G>)
        ensures
            r == old(self).params(),
            !final(self).params().spec_debug_comments(),
            final(self).params().spec_lookup_cb() is None,
            final(self).params().spec_gate_cb() is None,
    {
        let mut p = IRGenParams::new();
        std::mem::swap(&mut p, &mut self.0);
        p
    }
}

/// The entry of a region in the map by index: its index and its first row, if it has rows.
pub open spec fn region_entry(r: GroupRegion) -> (RegionIndex, Option<usize>) {
    (r.index, match r.rows {
        Some(rows) => Some(rows.0),
        None => None,
    })
}

/// The entries of the regions of the groups, group after group, each group's regions in order.
pub open spec fn regions_entries(groups: Seq<Group>) -> Seq<(RegionIndex, Option<usize>)>
    decreases groups.len(),
{
    if groups.len() == 0 {
        Seq::empty()
    } else {
        regions_entries(groups.drop_last()) + groups.last().regions@.map_values(
            |r: GroupRegion| region_entry(r),
        )
    }
}

/// Creates the map from region index to the first row of the region, over the regions of all
/// the groups.
pub fn region_data(groups: &Vec<Group>) -> (r: RegionByIndex)
    ensures
        r.entries@ == regions_entries(groups@),
{
    let mut entries: Vec<(RegionIndex, Option<usize>)> = Vec::new();
    let mut i: usize = 0;
    while i < groups.len()
        invariant
            i <= groups@.len(),
            entries@ == regions_entries(groups@.take(i as int)),
        decreases groups@.len() - i,
    {
        let regions = &groups[i].regions;
        let ghost before = entries@;
        let mut j: usize = 0;
        while j < regions.len()
            invariant
                j <= regions@.len(),
                *regions == groups@[i as int].regions,
                entries@ == before + regions@.take(j as int).map_values(|r: GroupRegion| region_entry(r)),
            decreases regions@.len() - j,
        {
            let start = match regions[j].rows {
                Some(rows) => Some(rows.0),
                None => None,
            };
            entries.push((regions[j].index, start));
            j = j + 1;
            proof {
                assert(regions@.take(j as int).map_values(|r: GroupRegion| region_entry(r)) =~= regions@.take(
                    j - 1,
                ).map_values(|r: GroupRegion| region_entry(r)).push(region_entry(regions@[j - 1])));
            }
        }
        proof {
            assert(regions@.take(j as int) =~= regions@);
            assert(groups@.take(i + 1).drop_last() =~= groups@.take(i as int));
        }
        i = i + 1;
    }
    proof {
        assert(groups@.take(i as int) =~= groups@);
    }
    RegionByIndex { entries }
}

/// How many of the group bodies are the main one.
pub open spec fn main_count<E>(groups: Seq<GroupBody<E>>) -> nat
    decreases groups.len(),
{
    if groups.len() == 0 {
        0
    } else {
        main_count(groups.drop_last()) + if groups.last().spec_key() is None { 1nat } else { 0nat }
    }
}

/// Whether exactly one of the generated group bodies is the main one, as the IR of a circuit
/// requires.
pub fn has_single_main<E>(groups: &Vec<GroupBody<E>>) -> (r: bool)
    ensures
        r == (main_count(groups@) == 1),
{
    let mut count: usize = 0;
    let mut i: usize = 0;
    while i < groups.len()
        invariant
            i <= groups@.len(),
            count == main_count(groups@.take(i as int)),
            count <= i,
        decreases groups@.len() - i,
    {
        proof {
            assert(groups@.take(i + 1).drop_last() =~= groups@.take(i as int));
        }
        if groups[i].is_main() {
            count = count + 1;
        }
        i = i + 1;
    }
    proof {
        assert(groups@.take(i as int) =~= groups@);
    }
    count == 1
}

/// What lowering gave for a group: its numbers of inputs and outputs, its callsites, and the
/// statements of its gates and of its lookups.
#[derive(Debug)]
pub struct LoweredGroup {
    /// Numbers of inputs and outputs.
    pub io_counts: (usize, usize),
    /// The calls the group makes.
    pub callsites: Vec<CallSite<ExpressionInRow>>,
    /// The statements of its gates.
    pub gates: IRStmt<ExpressionInRow>,
    /// The statements of its lookups.
    pub lookups: IRStmt<ExpressionInRow>,
}

/// How many of the groups are the top level one (have no key).
pub open spec fn top_level_count(groups: Seq<Group>) -> nat
    decreases groups.len(),
{
    if groups.len() == 0 {
        0
    } else {
        top_level_count(groups.drop_last()) + if groups.last().key is None { 1nat } else { 0nat }
    }
}

/// Bodies with the keys of the groups count as many main ones as there are top level groups.
proof fn lemma_main_count(bodies: Seq<GroupBody<ExpressionInRow>>, groups: Seq<Group>)
    requires
        bodies.len() == groups.len(),
        forall|i: int| 0 <= i < groups.len() ==> (#[trigger] bodies[i]).spec_key() == groups[i].key,
    ensures
        main_count(bodies) == top_level_count(groups),
    decreases groups.len(),
{
    if groups.len() > 0 {
        let n = groups.len() - 1;
        assert(bodies[n].spec_key() == groups[n].key);
        lemma_main_count(bodies.drop_last(), groups.drop_last());
    }
}

/// Assembles the IR of the groups of a circuit: the body of each group, by its position, from
/// what lowering gave for it and the cells lifted into its inputs (see [`GroupBody::new`]).
/// There must be one top level group, the main one of the IR.
pub fn group_bodies(
    groups: &Vec<Group>,
    constraints: &EqConstraintGraph,
    free: &Vec<FreeCells>,
    lowered: Vec<LoweredGroup>,
) -> (r: Vec<GroupBody<ExpressionInRow>>)
    requires
        free@.len() == groups@.len(),
        lowered@.len() == groups@.len(),
        top_level_count(groups@) == 1,
        forall|g: int| 0 <= g < groups@.len() ==> rows_known(all_cells(#[trigger] groups@[g], Some(free@[g].inputs@)),
            regions_entries(groups@)),
        forall|g: int, i: int| 0 <= g < groups@.len() && 0 <= i < constraints.edge_models().len() ==> !crosses_unexpectedly(
            #[trigger] constraints.edge_models()[i], #[trigger] groups@[g], regions_entries(groups@),
            all_cells(groups@[g], Some(free@[g].inputs@))),
    ensures
        r@.len() == groups@.len(),
        forall|g: int| 0 <= g < groups@.len() ==> body_of(#[trigger] r@[g], groups@[g], g as usize, regions_entries(groups@),
            constraints.edge_models(), free@[g].inputs@, lowered@[g].io_counts, groups@[g].key, lowered@[g].callsites@,
            lowered@[g].gates, lowered@[g].lookups),
        main_count(r@) == 1,
{
    let region_by_index = region_data(groups);
    let ghost orig = lowered@;
    let mut stack = crate::utils::reverse_vec(lowered);
    let mut out: Vec<GroupBody<ExpressionInRow>> = Vec::new();
    let mut id: usize = 0;
    while id < groups.len()
        invariant
            region_by_index.entries@ == regions_entries(groups@),
            free@.len() == groups@.len(),
            orig.len() == groups@.len(),
            id <= groups@.len(),
            out@.len() == id,
            stack@.len() == groups@.len() - id,
            forall|k: int| 0 <= k < stack@.len() ==> stack@[k] == orig[orig.len() - 1 - k],
            forall|g: int| 0 <= g < groups@.len() ==> rows_known(all_cells(#[trigger] groups@[g], Some(free@[g].inputs@)),
                regions_entries(groups@)),
            forall|g: int, i: int| 0 <= g < groups@.len() && 0 <= i < constraints.edge_models().len() ==> !crosses_unexpectedly(
                #[trigger] constraints.edge_models()[i], #[trigger] groups@[g], regions_entries(groups@),
                all_cells(groups@[g], Some(free@[g].inputs@))),
            forall|g: int| 0 <= g < id ==> body_of(#[trigger] out@[g], groups@[g], g as usize, regions_entries(groups@),
                constraints.edge_models(), free@[g].inputs@, orig[g].io_counts, groups@[g].key, orig[g].callsites@,
                orig[g].gates, orig[g].lookups),
        decreases groups@.len() - id,
    {
        let part = stack.pop().unwrap();
        proof {
            assert(part == orig[id as int]);
            assert(rows_known(all_cells(groups@[id as int], Some(free@[id as int].inputs@)), regions_entries(groups@)));
            assert forall|i: int| 0 <= i < constraints.edge_models().len() implies !crosses_unexpectedly(
                #[trigger] constraints.edge_models()[i], groups@[id as int], regions_entries(groups@),
                all_cells(groups@[id as int], Some(free@[id as int].inputs@))) by {
                assert(!crosses_unexpectedly(constraints.edge_models()[i], groups@[id as int], regions_entries(groups@),
                    all_cells(groups@[id as int], Some(free@[id as int].inputs@))));
            }
        }
        let group = &groups[id];
        let body = GroupBody::new(group, id, &region_by_index, constraints, free[id].inputs.as_slice(), part.io_counts,
            group.key, part.callsites, part.gates, part.lookups);
        out.push(body);
        id = id + 1;
    }
    proof {
        assert forall|g: int| 0 <= g < groups@.len() implies (#[trigger] out@[g]).spec_key() == groups@[g].key by {
            assert(body_of(out@[g], groups@[g], g as usize, regions_entries(groups@), constraints.edge_models(),
                free@[g].inputs@, orig[g].io_counts, groups@[g].key, orig[g].callsites@, orig[g].gates, orig[g].lookups));
        }
        lemma_main_count(out@, groups@);
    }
    out
}

/// `r` is the statement with the comment before it, in a sequence of the two, unless the
/// statement is an empty sequence, which stays as it is.
pub open spec fn prepended<E>(stmt: IRStmt<E>, comment: IRStmt<E>, r: IRStmt<E>) -> bool {
    if stmt matches IRStmt::Sequence(q) && q.0@.len() == 0 {
        r == stmt
    } else {
        r matches IRStmt::Sequence(q) && q.0@ == seq![comment, stmt]
    }
}

/// Puts the comment before the statement, unless the statement is empty.
pub fn prepend_comment<E>(stmt: IRStmt<E>, comment: IRStmt<E>) -> (r: IRStmt<E>)
    ensures
        prepended(stmt, comment, r),
{
    if stmt.is_empty() {
        return stmt;
    }
    let ghost (s0, c0) = (stmt, comment);
    let mut v: Vec<IRStmt<E>> = Vec::new();
    v.push(comment);
    v.push(stmt);
    proof {
        assert(v@ =~= seq![c0, s0]);
    }
    IRStmt::Sequence(StmtSeq(v))
}

/// Pair `(i, j)` comes before pair `(k, l)` in the order of a product: by the first, then by
/// the second.
pub open spec fn before_pair(i: int, j: int, k: int, l: int) -> bool {
    i < k || (i == k && j < l)
}

/// The index of pair `(i, j)` in a product whose second list has `n` elements.
pub open spec fn pair_index(i: int, j: int, n: int) -> int {
    i * n + j
}

proof fn lemma_pair_index(i: int, j: int, k: int, l: int, n: int)
    by (nonlinear_arith)
    requires
        0 <= i,
        0 <= j < n,
        0 <= l <= n,
        before_pair(i, j, k, l),
    ensures
        0 <= pair_index(i, j, n) < pair_index(k, l, n),
{
}

/// `st` is what lowering the pair `(a, b)` gives: `lower` returned a statement and its comment,
/// and `st` is that statement with the comment before it (see [`prepended`]).
pub open spec fn lowered_pair<A, B, E, X, F: Fn(&A, &B) -> Result<(IRStmt<E>, IRStmt<E>), X>>(
    lower: &F, a: &A, b: &B, st: IRStmt<E>) -> bool {
    exists|s: IRStmt<E>, c: IRStmt<E>| #[trigger] call_ensures(lower, (a, b), Ok::<(IRStmt<E>, IRStmt<E>), X>((s, c)))
        && prepended(s, c, st)
}

/// `lower` can succeed on the pair `(a, b)`.
pub open spec fn lowers_ok<A, B, E, X, F: Fn(&A, &B) -> Result<(IRStmt<E>, IRStmt<E>), X>>(
    lower: &F, a: &A, b: &B) -> bool {
    exists|o: (IRStmt<E>, IRStmt<E>)| #[trigger] call_ensures(lower, (a, b), Ok::<(IRStmt<E>, IRStmt<E>), X>(o))
}

/// `lower` can succeed on every pair of the product before the pair `(i, j)`.
pub open spec fn lowers_before<A, B, E, X, F: Fn(&A, &B) -> Result<(IRStmt<E>, IRStmt<E>), X>>(
    lower: &F, xs: Seq<A>, ys: Seq<B>, i: int, j: int) -> bool {
    forall|k: int, l: int| 0 <= k < xs.len() && 0 <= l < ys.len() && #[trigger] before_pair(k, l, i, j)
        ==> lowers_ok(lower, &xs[k], &ys[l])
}

proof fn lemma_lowered_ok<A, B, E, X, F: Fn(&A, &B) -> Result<(IRStmt<E>, IRStmt<E>), X>>(
    lower: &F, a: &A, b: &B, st: IRStmt<E>)
    requires
        lowered_pair(lower, a, b, st),
    ensures
        lowers_ok(lower, a, b),
{
    let (s, c) = choose|s: IRStmt<E>, c: IRStmt<E>| #[trigger] call_ensures(lower, (a, b), Ok::<(IRStmt<E>, IRStmt<E>), X>((s, c)))
        && prepended(s, c, st);
    assert(call_ensures(lower, (a, b), Ok::<(IRStmt<E>, IRStmt<E>), X>((s, c))));
}

/// Lowers each pair of the product of the two lists, in order (by the first list, then by the
/// second): `lower` gives a statement and its comment, and the comment is put before the
/// statement (see [`prepend_comment`]). The first error stops it: every pair before the
/// failing one was lowered.
fn lower_product<A, B, E, X, F: Fn(&A, &B) -> Result<(IRStmt<E>, IRStmt<E>), X>>(xs: &Vec<A>, ys: &Vec<B>, lower: &F)
    -> (r: Result<Vec<IRStmt<E>>, X>)
    requires
        forall|a: &A, b: &B| lower.requires((a, b)),
    ensures
        r matches Ok(v) ==> v@.len() == xs@.len() * ys@.len() && forall|i: int, j: int| 0 <= i < xs@.len() && 0 <= j < ys@.len()
            ==> lowered_pair(lower, &xs@[i], &ys@[j], #[trigger] v@[pair_index(i, j, ys@.len() as int)]),
        r matches Err(e) ==> exists|i: int, j: int| 0 <= i < xs@.len() && 0 <= j < ys@.len()
            && #[trigger] call_ensures(lower, (&xs@[i], &ys@[j]), Err::<(IRStmt<E>, IRStmt<E>), X>(e))
            && lowers_before(lower, xs@, ys@, i, j),
{
    let nb = ys.len();
    let mut out: Vec<IRStmt<E>> = Vec::new();
    let mut i: usize = 0;
    while i < xs.len()
        invariant
            nb == ys@.len(),
            i <= xs@.len(),
            forall|a: &A, b: &B| lower.requires((a, b)),
            out@.len() == pair_index(i as int, 0, nb as int),
            forall|k: int, l: int| 0 <= k < i && 0 <= l < nb
                ==> lowered_pair(lower, &xs@[k], &ys@[l], #[trigger] out@[pair_index(k, l, nb as int)]),
        decreases xs@.len() - i,
    {
        let mut j: usize = 0;
        while j < ys.len()
            invariant
                nb == ys@.len(),
                i < xs@.len(),
                j <= nb,
                forall|a: &A, b: &B| lower.requires((a, b)),
                out@.len() == pair_index(i as int, j as int, nb as int),
                forall|k: int, l: int| 0 <= k <= i && 0 <= l < nb && before_pair(k, l, i as int, j as int)
                    ==> lowered_pair(lower, &xs@[k], &ys@[l], #[trigger] out@[pair_index(k, l, nb as int)]),
            decreases nb - j,
        {
            proof {
                assert(0 <= pair_index(i as int, j as int, nb as int)) by (nonlinear_arith)
                    requires 0 <= i, 0 <= j;
            }
            match lower(&xs[i], &ys[j]) {
                Ok((s, c)) => {
                    let ghost (s0, c0) = (s, c);
                    let st = prepend_comment(s, c);
                    let ghost before = out@;
                    out.push(st);
                    proof {
                        assert(call_ensures(lower, (&xs@[i as int], &ys@[j as int]), Ok::<(IRStmt<E>, IRStmt<E>), X>((s0, c0))));
                        assert forall|k: int, l: int| 0 <= k <= i && 0 <= l < nb && before_pair(k, l, i as int, j + 1)
                            implies lowered_pair(lower, &xs@[k], &ys@[l], #[trigger] out@[pair_index(k, l, nb as int)]) by {
                            if k == i && l == j {
                                assert(out@[pair_index(k, l, nb as int)] == st);
                            } else {
                                lemma_pair_index(k, l, i as int, j as int, nb as int);
                                assert(out@[pair_index(k, l, nb as int)] == before[pair_index(k, l, nb as int)]);
                            }
                        }
                    }
                },
                Err(e) => {
                    let ghost (ii, jj) = (i as int, j as int);
                    proof {
                        assert(call_ensures(lower, (&xs@[i as int], &ys@[j as int]), Err::<(IRStmt<E>, IRStmt<E>), X>(e)));
                        assert forall|k: int, l: int| 0 <= k < xs@.len() && 0 <= l < ys@.len() && #[trigger] before_pair(k, l, i as int, j as int)
                            implies lowers_ok(lower, &xs@[k], &ys@[l]) by {
                            lemma_lowered_ok(lower, &xs@[k], &ys@[l], out@[pair_index(k, l, nb as int)]);
                        }
                        assert(lowers_before(lower, xs@, ys@, ii, jj));
                    }
                    let res: Result<Vec<IRStmt<E>>, X> = Err(e);
                    proof {
                        let e2 = res->Err_0;
                        assert(e2 == e);
                        assert(call_ensures(lower, (&xs@[ii], &ys@[jj]), Err::<(IRStmt<E>, IRStmt<E>), X>(e2)));
                    }
                    return res;
                },
            }
            proof {
                assert(pair_index(i as int, j + 1, nb as int) == pair_index(i as int, j as int, nb as int) + 1);
            }
            j = j + 1;
        }
        proof {
            assert(pair_index(i as int, nb as int, nb as int) == pair_index(i + 1, 0, nb as int)) by (nonlinear_arith);
        }
        i = i + 1;
    }
    proof {
        assert(pair_index(i as int, 0, nb as int) == xs@.len() * ys@.len()) by (nonlinear_arith)
            requires i == xs@.len(), nb == ys@.len();
    }
    Ok(out)
}

/// Lowers the gates on each region, region by region and, in each, gate by gate: `lower`
/// rewrites one gate on one region into a statement and the comment that heads it. The first
/// error stops it.
pub fn lower_gates<'a, G, E, X, F: Fn(&RegionData<'a>, &G) -> Result<(IRStmt<E>, IRStmt<E>), X>>(
    gates: &Vec<G>, regions: &Vec<RegionData<'a>>, lower: &F) -> (r: Result<Vec<IRStmt<E>>, X>)
    requires
        forall|a: &RegionData<'a>, b: &G| lower.requires((a, b)),
    ensures
        r matches Ok(v) ==> v@.len() == regions@.len() * gates@.len() && forall|i: int, j: int|
            0 <= i < regions@.len() && 0 <= j < gates@.len()
            ==> lowered_pair(lower, &regions@[i], &gates@[j], #[trigger] v@[pair_index(i, j, gates@.len() as int)]),
        r matches Err(e) ==> exists|i: int, j: int| 0 <= i < regions@.len() && 0 <= j < gates@.len()
            && #[trigger] call_ensures(lower, (&regions@[i], &gates@[j]), Err::<(IRStmt<E>, IRStmt<E>), X>(e))
            && lowers_before(lower, regions@, gates@, i, j),
{
    lower_product(regions, gates, lower)
}

/// Emits the invocation of each lookup on each region row, lookup by lookup and, for each,
/// row by row: `lower` gives the statement of one lookup on one row and the comment that heads
/// it. The first error stops it.
pub fn codegen_lookup_invocations<'r, 'io, 'fq, R, Q, E, X,
    F: Fn(&Lookup<Q>, &RegionRow<'r, 'io, 'fq, R>) -> Result<(IRStmt<E>, IRStmt<E>), X>>(
    lookups: &Vec<Lookup<Q>>, region_rows: &Vec<RegionRow<'r, 'io, 'fq, R>>, lower: &F) -> (r: Result<Vec<IRStmt<E>>, X>)
    requires
        forall|a: &Lookup<Q>, b: &RegionRow<'r, 'io, 'fq, R>| lower.requires((a, b)),
    ensures
        r matches Ok(v) ==> v@.len() == lookups@.len() * region_rows@.len() && forall|i: int, j: int|
            0 <= i < lookups@.len() && 0 <= j < region_rows@.len()
            ==> lowered_pair(lower, &lookups@[i], &region_rows@[j], #[trigger] v@[pair_index(i, j, region_rows@.len() as int)]),
        r matches Err(e) ==> exists|i: int, j: int| 0 <= i < lookups@.len() && 0 <= j < region_rows@.len()
            && #[trigger] call_ensures(lower, (&lookups@[i], &region_rows@[j]), Err::<(IRStmt<E>, IRStmt<E>), X>(e))
            && lowers_before(lower, lookups@, region_rows@, i, j),
{
    lower_product(lookups, region_rows, lower)
}

} // verus!

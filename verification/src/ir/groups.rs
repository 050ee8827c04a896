//! Groups of the IR: the body of each group, and the equality constraints that concern it.
use vstd::prelude::*;
use crate::func_io::{FuncIO, relativize_advice_cell, relativized};
use crate::ir::aexpr::{IRAexpr, aexpr_relativized};
use crate::ir::compare::CmpOp;
use crate::ir::equivalency::{EqvRelation, SymbolicEqv, aexprs_equivalent, func_ios_equivalent, law_aexpr_equivalence, law_stmt_equivalence, stmt_equivalent};
use crate::ir::groups::bounds::{GroupBounds, all_cells, bound_of, Bound, EqConstraintCheck, rows_known};
use crate::ir::stmt::{IRStmt, stmt_mapped, stmt_has_leaf};
use crate::poly::{Expression, Rotation};
use crate::synthesis::constraint::{ArgModel, EqConstraint, EqConstraintGraph, ends, oriented};
use crate::synthesis::groups::{Group, GroupCell, RegionByIndex};
use crate::synthesis::regions::RegionIndex;
use crate::table::{Any, ColumnType};

pub mod bounds;
pub mod callsite;

verus! {

/// The key that identifies the kind of a group; groups of the same kind may share their IR.
#[derive(Debug, Clone, Copy, PartialEq, Eq, Structural, Hash)]
pub struct GroupKey(pub u64);

/// An expression evaluated at a row of the circuit.
#[derive(Debug, PartialEq)]
pub struct ExpressionInRow {
    /// The row.
    pub row: usize,
    /// The expression.
    pub expr: Expression,
}

/// A call from a group to another.
#[derive(Debug)]
pub struct CallSite<E> {
    /// Name of the callsite.
    pub name: String,
    /// Key of the called group.
    pub callee: GroupKey,
    /// The index in the original groups array to the called group.
    pub callee_id: usize,
    /// Arguments of the call.
    pub inputs: Vec<E>,
    /// Variables that receive the outputs.
    pub output_vars: Vec<FuncIO>,
    /// Expressions that the outputs are bound to.
    pub outputs: Vec<E>,
}

/// Each element of `r` is related by `rel` to the element of `s` at the same place.
pub open spec fn list_mapped<T, O>(s: Seq<T>, r: Seq<O>, rel: spec_fn(T, O) -> bool) -> bool {
    r.len() == s.len() && forall|i: int| #![trigger s[i]] 0 <= i < s.len() ==> rel(s[i], r[i])
}

/// Maps the elements of a list, from first to last, stopping at the first error.
fn try_map_list<T, O, E, F: Fn(T) -> Result<O, E>>(xs: Vec<T>, f: &F) -> (r: Result<Vec<O>, E>)
    requires
        forall|t: T| f.requires((t,)),
    ensures
        r matches Ok(ys) ==> list_mapped(xs@, ys@, |a: T, b: O| f.ensures((a,), Ok::<O, E>(b))),
        (forall|a: T, res: Result<O, E>| f.ensures((a,), res) ==> res is Ok) ==> r is Ok,
{
    let ghost orig = xs@;
    let mut stack = crate::utils::reverse_vec(xs);
    let mut out: Vec<O> = Vec::new();
    while stack.len() > 0
        invariant
            out@.len() + stack@.len() == orig.len(),
            forall|k: int| 0 <= k < stack@.len() ==> stack@[k] == orig[orig.len() - 1 - k],
            forall|t: T| f.requires((t,)),
            forall|i: int| #![trigger orig[i]] 0 <= i < out@.len() ==> f.ensures((orig[i],), Ok::<O, E>(out@[i])),
        decreases stack@.len(),
    {
        let x = stack.pop().unwrap();
        assert(x == orig[out@.len() as int]);
        let y = f(x)?;
        out.push(y);
    }
    Ok(out)
}

impl<E> CallSite<E> {
    /// Transforms the expressions of the callsite, stopping at the first error.
    pub fn try_map<O, Er, F: Fn(E) -> Result<O, Er>>(self, f: &F) -> (r: Result<CallSite<O>, Er>)
        requires
            forall|t: E| f.requires((t,)),
        ensures
            r matches Ok(c) ==> c.name@ == self.name@ && c.callee == self.callee && c.callee_id == self.callee_id
                && c.output_vars@ == self.output_vars@
                && list_mapped(self.inputs@, c.inputs@, |a: E, b: O| f.ensures((a,), Ok::<O, Er>(b)))
                && list_mapped(self.outputs@, c.outputs@, |a: E, b: O| f.ensures((a,), Ok::<O, Er>(b))),
            (forall|a: E, res: Result<O, Er>| f.ensures((a,), res) ==> res is Ok) ==> r is Ok,
    {
        let inputs = try_map_list(self.inputs, f)?;
        let outputs = try_map_list(self.outputs, f)?;
        Ok(CallSite {
            name: self.name,
            callee: self.callee,
            callee_id: self.callee_id,
            inputs,
            output_vars: self.output_vars,
            outputs,
        })
    }
}

/// The IR of a group.
#[derive(Debug)]
pub struct GroupBody<E> {
    name: String,
    /// Index in the original groups array.
    id: usize,
    input_count: usize,
    output_count: usize,
    key: Option<GroupKey>,
    gates: IRStmt<E>,
    eq_constraints: IRStmt<E>,
    callsites: Vec<CallSite<E>>,
    lookups: IRStmt<E>,
    injected: Vec<IRStmt<E>>,
}

impl<E> GroupBody<E> {
    /// The name of the group.
    pub closed spec fn spec_name(&self) -> Seq<char> {
        self.name@
    }

    /// The index of the group in the original groups array.
    pub closed spec fn spec_id(&self) -> usize {
        self.id
    }

    /// The key of the group; the top level group has none.
    pub closed spec fn spec_key(&self) -> Option<GroupKey> {
        self.key
    }

    /// The numbers of inputs and outputs of the group.
    pub closed spec fn spec_io_counts(&self) -> (usize, usize) {
        (self.input_count, self.output_count)
    }

    /// The statements of the group: gates, equality constraints and lookups.
    pub closed spec fn spec_parts(&self) -> (IRStmt<E>, IRStmt<E>, IRStmt<E>) {
        (self.gates, self.eq_constraints, self.lookups)
    }

    /// The calls that the group makes.
    pub closed spec fn spec_callsites(&self) -> Seq<CallSite<E>> {
        self.callsites@
    }

    /// The IR injected into the group.
    pub closed spec fn spec_injected(&self) -> Seq<IRStmt<E>> {
        self.injected@
    }

    /// The body of a group from its parts.
    pub fn from_parts(
        name: String,
        id: usize,
        counts: (usize, usize),
        key: Option<GroupKey>,
        gates: IRStmt<E>,
        eq_constraints: IRStmt<E>,
        callsites: Vec<CallSite<E>>,
        lookups: IRStmt<E>,
    ) -> (r: Self)
        ensures
            r.spec_name() == name@,
            r.spec_id() == id,
            r.spec_io_counts() == counts,
            r.spec_key() == key,
            r.spec_parts() == (gates, eq_constraints, lookups),
            r.spec_callsites() == callsites@,
            r.spec_injected().len() == 0,
    {
        GroupBody {
            name,
            id,
            input_count: counts.0,
            output_count: counts.1,
            key,
            gates,
            eq_constraints,
            callsites,
            lookups,
            injected: Vec::new(),
        }
    }

    /// Whether the group is the top level one: it has no key.
    pub fn is_main(&self) -> (r: bool)
        ensures
            r == (self.spec_key() is None),
    {
        self.key.is_none()
    }

    /// The index of the group in the original groups array.
    pub fn id(&self) -> (r: usize)
        ensures
            r == self.spec_id(),
    {
        self.id
    }

    /// The name of the group.
    pub fn name(&self) -> (r: &str)
        ensures
            r@ == self.spec_name(),
    {
        self.name.as_str()
    }

    /// Renames the group.
    pub fn name_mut(&mut self, name: String)
        ensures
            final(self).spec_name() == name@,
            final(self).spec_id() == old(self).spec_id(),
            final(self).spec_key() == old(self).spec_key(),
            final(self).spec_io_counts() == old(self).spec_io_counts(),
            final(self).spec_parts() == old(self).spec_parts(),
            final(self).spec_callsites() == old(self).spec_callsites(),
            final(self).spec_injected() == old(self).spec_injected(),
    {
        self.name = name;
    }

    /// The calls that the group makes.
    pub fn callsites(&self) -> (r: &[CallSite<E>])
        ensures
            r@ == self.spec_callsites(),
    {
        self.callsites.as_slice()
    }

    /// Replaces the calls that the group makes.
    pub fn callsites_mut(&mut self, callsites: Vec<CallSite<E>>)
        ensures
            final(self).spec_callsites() == callsites@,
            final(self).spec_name() == old(self).spec_name(),
            final(self).spec_id() == old(self).spec_id(),
            final(self).spec_key() == old(self).spec_key(),
            final(self).spec_io_counts() == old(self).spec_io_counts(),
            final(self).spec_parts() == old(self).spec_parts(),
            final(self).spec_injected() == old(self).spec_injected(),
    {
        self.callsites = callsites;
    }

    /// The key of the group; the top level group has none.
    pub fn key(&self) -> (r: Option<GroupKey>)
        ensures
            r == self.spec_key(),
    {
        self.key
    }

    /// Adds injected IR to the group.
    pub fn inject_ir(&mut self, ir: IRStmt<E>)
        ensures
            final(self).spec_injected() == old(self).spec_injected().push(ir),
            final(self).spec_callsites() == old(self).spec_callsites(),
            final(self).spec_name() == old(self).spec_name(),
            final(self).spec_id() == old(self).spec_id(),
            final(self).spec_key() == old(self).spec_key(),
            final(self).spec_io_counts() == old(self).spec_io_counts(),
            final(self).spec_parts() == old(self).spec_parts(),
    {
        self.injected.push(ir);
    }

    /// Transforms the expressions of the group, stopping at the first error.
    pub fn try_map<O, Er, F: Fn(E) -> Result<O, Er>>(self, f: &F) -> (r: Result<GroupBody<O>, Er>)
        requires
            forall|t: E| f.requires((t,)),
        ensures
            r matches Ok(b) ==> b.spec_name() == self.spec_name() && b.spec_id() == self.spec_id()
                && b.spec_key() == self.spec_key() && b.spec_io_counts() == self.spec_io_counts()
                && stmt_mapped(self.spec_parts().0, b.spec_parts().0, |a: E, o: O| f.ensures((a,), Ok::<O, Er>(o)))
                && stmt_mapped(self.spec_parts().1, b.spec_parts().1, |a: E, o: O| f.ensures((a,), Ok::<O, Er>(o)))
                && stmt_mapped(self.spec_parts().2, b.spec_parts().2, |a: E, o: O| f.ensures((a,), Ok::<O, Er>(o)))
                && b.spec_callsites().len() == self.spec_callsites().len()
                && b.spec_injected().len() == self.spec_injected().len(),
            (forall|a: E, res: Result<O, Er>| f.ensures((a,), res) ==> res is Ok) ==> r is Ok,
    {
        let gates = self.gates.try_map(f)?;
        let eq_constraints = self.eq_constraints.try_map(f)?;
        let lookups = self.lookups.try_map(f)?;
        let ghost cs = self.callsites@;
        let mut stack = crate::utils::reverse_vec(self.callsites);
        let mut callsites: Vec<CallSite<O>> = Vec::new();
        while stack.len() > 0
            invariant
                callsites@.len() + stack@.len() == cs.len(),
                forall|t: E| f.requires((t,)),
            decreases stack@.len(),
        {
            let c = stack.pop().unwrap();
            callsites.push(c.try_map(f)?);
        }
        let ghost inj = self.injected@;
        let mut stack2 = crate::utils::reverse_vec(self.injected);
        let mut injected: Vec<IRStmt<O>> = Vec::new();
        while stack2.len() > 0
            invariant
                injected@.len() + stack2@.len() == inj.len(),
                forall|t: E| f.requires((t,)),
            decreases stack2@.len(),
        {
            let s = stack2.pop().unwrap();
            injected.push(s.try_map(f)?);
        }
        Ok(GroupBody {
            name: self.name,
            id: self.id,
            input_count: self.input_count,
            output_count: self.output_count,
            key: self.key,
            gates,
            eq_constraints,
            callsites,
            lookups,
            injected,
        })
    }
}

/// Whether an equality constraint concerns a group, given where its ends lie relative to the
/// group's bounds: both within the group's regions or inputs and outputs, but not two inputs
/// or outputs outside them; a fixed cell outside the group counts as its own. Constraints
/// between a fixed cell and a constant always do.
pub open spec fn selects(e: (ArgModel, ArgModel), g: Group, m: Seq<(RegionIndex, Option<usize>)>, cells: Seq<GroupCell>) -> bool {
    match e {
        (ArgModel::Any(lc, lr), ArgModel::Any(rc, rr)) => {
            let l = bound_of(g, m, cells, lc, lr);
            let r = bound_of(g, m, cells, rc, rr);
            match (l, r) {
                (Bound::Within, Bound::Within) => true,
                (Bound::Within, Bound::ForeignIO) => true,
                (Bound::ForeignIO, Bound::Within) => true,
                (Bound::Within, Bound::IO) => true,
                (Bound::IO, Bound::Within) => true,
                (Bound::IO, Bound::IO) => true,
                (Bound::IO, Bound::ForeignIO) => true,
                (Bound::ForeignIO, Bound::IO) => true,
                (Bound::Within, Bound::Outside) => true,
                (Bound::Outside, Bound::Within) => true,
                _ => false,
            }
        },
        _ => true,
    }
}

/// The equality constraint would be refused: a cell within the group equal to a cell outside
/// it that is not fixed.
pub open spec fn crosses_unexpectedly(e: (ArgModel, ArgModel), g: Group, m: Seq<(RegionIndex, Option<usize>)>, cells: Seq<GroupCell>) -> bool {
    match e {
        (ArgModel::Any(lc, lr), ArgModel::Any(rc, rr)) => {
            let l = bound_of(g, m, cells, lc, lr);
            let r = bound_of(g, m, cells, rc, rr);
            (l == Bound::Within && r == Bound::Outside && rc.column_type != Any::Fixed)
                || (l == Bound::Outside && r == Bound::Within && lc.column_type != Any::Fixed)
        },
        _ => false,
    }
}

/// The edges that [`selects`] keeps, in order.
pub open spec fn selected_edges(es: Seq<(ArgModel, ArgModel)>, g: Group, m: Seq<(RegionIndex, Option<usize>)>, cells: Seq<GroupCell>) -> Seq<(ArgModel, ArgModel)>
    decreases es.len(),
{
    if es.len() == 0 {
        Seq::empty()
    } else {
        selected_edges(es.drop_last(), g, m, cells) + if selects(es.last(), g, m, cells) {
            seq![es.last()]
        } else {
            Seq::empty()
        }
    }
}

/// Select the equality constraints that concern this group, the free cells being counted as
/// its inputs. An edge between a cell within the group and a cell outside it that is not
/// fixed must not occur (it is refused).
pub fn select_equality_constraints(group: &Group, region_by_index: &RegionByIndex, constraints: &EqConstraintGraph, free_inputs: &[GroupCell]) -> (r: Vec<EqConstraint>)
    requires
        rows_known(all_cells(*group, Some(free_inputs@)), region_by_index.entries@),
        forall|i: int| 0 <= i < constraints.edge_models().len() ==> !crosses_unexpectedly(
            #[trigger] constraints.edge_models()[i], *group, region_by_index.entries@, all_cells(*group, Some(free_inputs@))),
    ensures
        ({
            let sel = selected_edges(constraints.edge_models(), *group, region_by_index.entries@, all_cells(*group, Some(free_inputs@)));
            &&& r@.len() == sel.len()
            &&& forall|i: int| 0 <= i < r@.len() ==> ends(#[trigger] r@[i]) == oriented(sel[i])
        }),
{
    let ghost cells = all_cells(*group, Some(free_inputs@));
    let ghost m = region_by_index.entries@;
    let bounds = GroupBounds::new_with_extra(group, region_by_index, Some(free_inputs));
    let edges = constraints.edges();
    let ghost es = constraints.edge_models();
    let total = edges.len();
    let mut stack = crate::utils::reverse_vec(edges);
    let mut out: Vec<EqConstraint> = Vec::new();
    let mut i: usize = 0;
    let ghost n = es.len();
    while stack.len() > 0
        invariant
            es == constraints.edge_models(),
            i + stack@.len() == n,
            n == es.len(),
            n == total,
            forall|k: int| 0 <= k < stack@.len() ==> ends(#[trigger] stack@[k]) == oriented(es[n - 1 - k]),
            forall|k: int| 0 <= k < es.len() ==> !crosses_unexpectedly(#[trigger] es[k], *group, m, cells),
            forall|col: crate::table::Column<Any>, row: usize| bounds.spec_check(col, row) == bound_of(*group, m, cells, col, row),
            ({
                let sel = selected_edges(es.take(i as int), *group, m, cells);
                &&& out@.len() == sel.len()
                &&& forall|k: int| 0 <= k < out@.len() ==> ends(#[trigger] out@[k]) == oriented(sel[k])
            }),
        decreases stack@.len(),
    {
        let c = stack.pop().unwrap();
        let ghost e = es[i as int];
        assert(ends(c) == oriented(e));
        assert(!crosses_unexpectedly(es[i as int], *group, m, cells));
        let keep = match bounds.check_eq_constraint(&c) {
            EqConstraintCheck::AnyToAny(left, l, right, r) => match (left, right) {
                (Bound::Within, Bound::Within) => true,
                (Bound::Within, Bound::ForeignIO) => true,
                (Bound::ForeignIO, Bound::Within) => true,
                (Bound::Within, Bound::IO) => true,
                (Bound::IO, Bound::Within) => true,
                (Bound::IO, Bound::IO) => true,
                (Bound::IO, Bound::ForeignIO) => true,
                (Bound::ForeignIO, Bound::IO) => true,
                (Bound::Within, Bound::Outside) => true,
                (Bound::Outside, Bound::Within) => true,
                _ => false,
            },
            EqConstraintCheck::FixedToConst(_) => true,
        };
        let ghost prev = out@;
        proof {
            assert(es.take(i + 1).drop_last() =~= es.take(i as int));
            assert(es.take(i + 1).last() == e);
            match c {
                EqConstraint::AnyToAny(..) => {
                    assert(keep == selects(e, *group, m, cells));
                },
                EqConstraint::FixedToConst(..) => {
                    assert(keep == selects(e, *group, m, cells));
                },
            }
        }
        if keep {
            out.push(c);
            proof {
                assert(ends(out@[prev.len() as int]) == oriented(e));
            }
        }
        i = i + 1;
    }
    proof {
        assert(es.take(n as int) =~= es);
    }
    out
}

/// The constraint `lhs = rhs` between two expressions in rows.
fn eq_in_rows(lhs: Expression, lrow: usize, rhs: Expression, rrow: usize) -> (r: IRStmt<ExpressionInRow>)
    ensures
        r == IRStmt::constraint_spec(CmpOp::Eq, ExpressionInRow { row: lrow, expr: lhs }, ExpressionInRow { row: rrow, expr: rhs }),
{
    IRStmt::constraint(CmpOp::Eq, ExpressionInRow { row: lrow, expr: lhs }, ExpressionInRow { row: rrow, expr: rhs })
}

/// The statement that an equality constraint becomes: the equality of the queries of its two
/// cells, each at its row, or of the fixed cell and the constant.
pub open spec fn eq_statement(e: EqConstraint) -> IRStmt<ExpressionInRow> {
    match e {
        EqConstraint::AnyToAny(from, from_row, to, to_row) => IRStmt::constraint_spec(
            CmpOp::Eq,
            ExpressionInRow { row: from_row, expr: crate::table::query_of(from.column_type, from.index, Rotation(0)) },
            ExpressionInRow { row: to_row, expr: crate::table::query_of(to.column_type, to.index, Rotation(0)) },
        ),
        EqConstraint::FixedToConst(column, row, f) => IRStmt::constraint_spec(
            CmpOp::Eq,
            ExpressionInRow { row, expr: crate::table::query_of(Any::Fixed, column.index, Rotation(0)) },
            ExpressionInRow { row, expr: Expression::Constant(f) },
        ),
    }
}

/// The cell or constant that a side of a constraint stands for: a query of the current row of
/// a column at the side's row is that cell, a constant is that value.
pub open spec fn side_model(s: ExpressionInRow) -> Option<ArgModel> {
    match s.expr {
        Expression::Constant(f) => Some(ArgModel::Const(f@)),
        Expression::Fixed(q) => if q.rotation == Rotation(0) {
            Some(ArgModel::Any(crate::table::Column { index: q.column_index, column_type: Any::Fixed }, s.row))
        } else {
            None
        },
        Expression::Advice(q) => if q.rotation == Rotation(0) {
            Some(ArgModel::Any(crate::table::Column { index: q.column_index, column_type: Any::Advice }, s.row))
        } else {
            None
        },
        Expression::Instance(q) => if q.rotation == Rotation(0) {
            Some(ArgModel::Any(crate::table::Column { index: q.column_index, column_type: Any::Instance }, s.row))
        } else {
            None
        },
        _ => None,
    }
}

/// A vertex of the graph of equality constraints, with a fixed cell seen as a cell of any
/// column.
pub open spec fn as_cell(v: ArgModel) -> ArgModel {
    match v {
        ArgModel::Fixed(c, row) => ArgModel::Any(crate::table::Column { index: c.index, column_type: Any::Fixed }, row),
        _ => v,
    }
}

/// The statement of an equality constraint ties exactly its two ends: it is an equality whose
/// left side stands for the first end of the edge and whose right side stands for the second,
/// each cell queried at its own row.
pub proof fn law_eq_statement_ties_the_ends(e: EqConstraint)
    ensures
        eq_statement(e) matches IRStmt::Constraint(c) && c.op == CmpOp::Eq
            && side_model(c.lhs) == Some(as_cell(ends(e).0)) && side_model(c.rhs) == Some(as_cell(ends(e).1)),
        eq_statement(e) matches IRStmt::Constraint(c) && e matches EqConstraint::AnyToAny(_, from_row, _, to_row)
            ==> c.lhs.row == from_row && c.rhs.row == to_row,
{
}

/// Generates a constraint statement for each equality constraint: the two cells queried at
/// their rows are equal, or the fixed cell at its row equals the constant.
pub fn inter_region_constraints(constraints: Vec<EqConstraint>) -> (r: Vec<IRStmt<ExpressionInRow>>)
    ensures
        r@.len() == constraints@.len(),
        forall|i: int| 0 <= i < r@.len() ==> (#[trigger] r@[i]) == eq_statement(constraints@[i]),
{
    let ghost orig = constraints@;
    let mut stack = crate::utils::reverse_vec(constraints);
    let mut out: Vec<IRStmt<ExpressionInRow>> = Vec::new();
    while stack.len() > 0
        invariant
            out@.len() + stack@.len() == orig.len(),
            forall|k: int| 0 <= k < stack@.len() ==> stack@[k] == orig[orig.len() - 1 - k],
            forall|i: int| 0 <= i < out@.len() ==> (#[trigger] out@[i]) == match orig[i] {
                EqConstraint::AnyToAny(from, from_row, to, to_row) => IRStmt::constraint_spec(
                    CmpOp::Eq,
                    ExpressionInRow { row: from_row, expr: crate::table::query_of(from.column_type, from.index, Rotation(0)) },
                    ExpressionInRow { row: to_row, expr: crate::table::query_of(to.column_type, to.index, Rotation(0)) },
                ),
                EqConstraint::FixedToConst(column, row, f) => IRStmt::constraint_spec(
                    CmpOp::Eq,
                    ExpressionInRow { row, expr: crate::table::query_of(Any::Fixed, column.index, Rotation(0)) },
                    ExpressionInRow { row, expr: Expression::Constant(f) },
                ),
            },
        decreases stack@.len(),
    {
        let c = stack.pop().unwrap();
        assert(c == orig[out@.len() as int]);
        let s = match c {
            EqConstraint::AnyToAny(from, from_row, to, to_row) => eq_in_rows(
                from.query_cell(Rotation::cur()),
                from_row,
                to.query_cell(Rotation::cur()),
                to_row,
            ),
            EqConstraint::FixedToConst(column, row, f) => eq_in_rows(
                column.query_cell(Rotation::cur()),
                row,
                Expression::Constant(f),
                row,
            ),
        };
        out.push(s);
    }
    out
}

impl GroupBody<IRAexpr> {
    /// Relativizes the advice cells of the equality constraints to the regions (half open
    /// ranges of rows), which improves the detection of equivalent groups.
    pub fn relativize_eq_constraints(&mut self, regions: &Vec<(usize, usize)>)
        ensures
            stmt_mapped(old(self).spec_parts().1, final(self).spec_parts().1, |a: IRAexpr, b: IRAexpr| b@ == aexpr_relativized(a@, regions@)),
            final(self).spec_parts().0 == old(self).spec_parts().0,
            final(self).spec_parts().2 == old(self).spec_parts().2,
            final(self).spec_name() == old(self).spec_name(),
            final(self).spec_id() == old(self).spec_id(),
            final(self).spec_key() == old(self).spec_key(),
            final(self).spec_io_counts() == old(self).spec_io_counts(),
            final(self).spec_callsites() == old(self).spec_callsites(),
            final(self).spec_injected() == old(self).spec_injected(),
    {
        let mut eqs = IRStmt::empty();
        std::mem::swap(&mut eqs, &mut self.eq_constraints);
        let f = |e: IRAexpr| -> (r: IRAexpr)
            ensures
                r@ == aexpr_relativized(e@, regions@),
            { e.relativize_ios(regions) };
        let mapped = eqs.map(&f);
        self.eq_constraints = mapped;
        proof {
            lemma_stmt_mapped_weaken(eqs, self.eq_constraints, |a: IRAexpr, b: IRAexpr| f.ensures((a,), b),
                |a: IRAexpr, b: IRAexpr| b@ == aexpr_relativized(a@, regions@));
        }
    }
}

/// A relation between statements holds of any weaker relation between expressions.
pub proof fn lemma_stmt_mapped_weaken<T, O>(s: IRStmt<T>, r: IRStmt<O>, rel: spec_fn(T, O) -> bool, rel2: spec_fn(T, O) -> bool)
    requires
        stmt_mapped(s, r, rel),
        forall|a: T, b: O| #[trigger] rel(a, b) ==> rel2(a, b),
    ensures
        stmt_mapped(s, r, rel2),
    decreases s,
{
    match s {
        IRStmt::Assert(a) => {
            crate::ir::bexpr::lemma_mapped_weaken(a.0, r->Assert_0.0, rel, rel2);
        },
        IRStmt::Sequence(q) => {
            let p = r->Sequence_0;
            assert forall|i: int| #![trigger q.0@[i]] 0 <= i < q.0@.len() implies stmt_mapped(q.0@[i], p.0@[i], rel2) by {
                assert(decreases_to!(s => q.0@)) by {
                    assert(decreases_to!(q => q.0));
                    assert(decreases_to!(q.0 => q.0@));
                }
                lemma_stmt_mapped_weaken(q.0@[i], p.0@[i], rel, rel2);
            }
        },
        _ => {},
    }
}

/// `r` is the body that [`GroupBody::new`] builds for the group: its name, identifier, numbers
/// of inputs and outputs, key, callsites, gates and lookups as given, and as its equality
/// constraints the statements of the edges that concern the group, its free cells `free` being
/// counted as its inputs (see [`selected_edges`] and [`eq_statement`]).
pub open spec fn body_of(
    r: GroupBody<ExpressionInRow>,
    group: Group,
    id: usize,
    m: Seq<(RegionIndex, Option<usize>)>,
    es: Seq<(ArgModel, ArgModel)>,
    free: Seq<GroupCell>,
    counts: (usize, usize),
    key: Option<GroupKey>,
    callsites: Seq<CallSite<ExpressionInRow>>,
    gates: IRStmt<ExpressionInRow>,
    lookups: IRStmt<ExpressionInRow>,
) -> bool {
    let sel = selected_edges(es, group, m, all_cells(group, Some(free)));
    &&& r.spec_name() == group.name@
    &&& r.spec_id() == id
    &&& r.spec_io_counts() == counts
    &&& r.spec_key() == key
    &&& r.spec_parts().0 == gates
    &&& r.spec_parts().2 == lookups
    &&& r.spec_callsites() == callsites
    &&& r.spec_parts().1 matches IRStmt::Sequence(q)
    &&& q.0@.len() == sel.len()
    &&& forall|i: int| #![trigger q.0@[i]] 0 <= i < sel.len() ==> exists|e: EqConstraint| ends(e) == oriented(sel[i])
        && q.0@[i] == #[trigger] eq_statement(e)
}

impl GroupBody<ExpressionInRow> {
    /// The body of a group from its lowered calls, gates and lookups; the equality
    /// constraints that concern the group, its free cells being counted as its inputs, become
    /// its constraint statements (see [`select_equality_constraints`] and
    /// [`inter_region_constraints`]).
    pub fn new(
        group: &Group,
        id: usize,
        region_by_index: &RegionByIndex,
        constraints: &EqConstraintGraph,
        free_inputs: &[GroupCell],
        counts: (usize, usize),
        key: Option<GroupKey>,
        callsites: Vec<CallSite<ExpressionInRow>>,
        gates: IRStmt<ExpressionInRow>,
        lookups: IRStmt<ExpressionInRow>,
    ) -> (r: Self)
        requires
            rows_known(all_cells(*group, Some(free_inputs@)), region_by_index.entries@),
            forall|i: int| 0 <= i < constraints.edge_models().len() ==> !crosses_unexpectedly(
                #[trigger] constraints.edge_models()[i], *group, region_by_index.entries@, all_cells(*group, Some(free_inputs@))),
        ensures
            body_of(r, *group, id, region_by_index.entries@, constraints.edge_models(), free_inputs@, counts, key, callsites@,
                gates, lookups),
    {
        let selected = select_equality_constraints(group, region_by_index, constraints, free_inputs);
        let ghost sel_c = selected@;
        let stmts = inter_region_constraints(selected);
        let ghost st = stmts@;
        let eq_constraints = IRStmt::seq(stmts);
        proof {
            let sel = selected_edges(constraints.edge_models(), *group, region_by_index.entries@, all_cells(*group, Some(free_inputs@)));
            assert forall|i: int| #![trigger st[i]] 0 <= i < sel.len() implies exists|e: EqConstraint| ends(e) == oriented(sel[i])
                && st[i] == #[trigger] eq_statement(e) by {
                assert(ends(sel_c[i]) == oriented(sel[i]));
                assert(st[i] == eq_statement(sel_c[i]));
            }
        }
        GroupBody::from_parts(group.name.clone(), id, counts, key, gates, eq_constraints, callsites, lookups)
    }
}

/// Two callsites are equivalent when they call the same group with equivalent inputs, output
/// variables and outputs (compared up to the length of the shorter list).
pub open spec fn callsite_equivalent(a: CallSite<IRAexpr>, b: CallSite<IRAexpr>) -> bool {
    &&& a.callee == b.callee
    &&& aexprs_equivalent(a.inputs@, b.inputs@)
    &&& func_ios_equivalent(a.output_vars@, b.output_vars@)
    &&& aexprs_equivalent(a.outputs@, b.outputs@)
}

/// Two groups are equivalent when neither is the top level one, they have the same key and
/// numbers of inputs and outputs, equivalent gates, equality constraints and lookups, and
/// equivalent callsites at the same places (up to the length of the shorter list).
pub open spec fn group_equivalent(a: GroupBody<IRAexpr>, b: GroupBody<IRAexpr>) -> bool {
    let (ga, ea, la) = a.spec_parts();
    let (gb, eb, lb) = b.spec_parts();
    &&& a.spec_key() is Some
    &&& b.spec_key() is Some
    &&& a.spec_key() == b.spec_key()
    &&& a.spec_io_counts() == b.spec_io_counts()
    &&& stmt_equivalent(ga, gb)
    &&& stmt_equivalent(ea, eb)
    &&& stmt_equivalent(la, lb)
    &&& forall|i: int| #![trigger a.spec_callsites()[i]] 0 <= i < a.spec_callsites().len() && i < b.spec_callsites().len()
        ==> callsite_equivalent(a.spec_callsites()[i], b.spec_callsites()[i])
}

/// Whether two callsites are equivalent, as [`callsite_equivalent`] says.
fn callsite_eqv(a: &CallSite<IRAexpr>, b: &CallSite<IRAexpr>) -> (r: bool)
    ensures
        r == callsite_equivalent(*a, *b),
{
    a.callee.0 == b.callee.0
        && <SymbolicEqv as EqvRelation<Vec<IRAexpr>, Vec<IRAexpr>>>::equivalent(&a.inputs, &b.inputs)
        && <SymbolicEqv as EqvRelation<Vec<FuncIO>, Vec<FuncIO>>>::equivalent(&a.output_vars, &b.output_vars)
        && <SymbolicEqv as EqvRelation<Vec<IRAexpr>, Vec<IRAexpr>>>::equivalent(&a.outputs, &b.outputs)
}

impl EqvRelation<GroupBody<IRAexpr>, GroupBody<IRAexpr>> for SymbolicEqv {
    /// Two groups are equivalent if the code they represent is equivalent and they have the
    /// same key. The top level group is never equivalent to anything.
    open spec fn eqv(lhs: GroupBody<IRAexpr>, rhs: GroupBody<IRAexpr>) -> bool {
        group_equivalent(lhs, rhs)
    }

    fn equivalent(lhs: &GroupBody<IRAexpr>, rhs: &GroupBody<IRAexpr>) -> (r: bool) {
        if lhs.is_main() || rhs.is_main() {
            return false;
        }
        let k = lhs.key.unwrap().0 == rhs.key.unwrap().0;
        let io = lhs.input_count == rhs.input_count && lhs.output_count == rhs.output_count;
        let gates = <SymbolicEqv as EqvRelation<IRStmt<IRAexpr>, IRStmt<IRAexpr>>>::equivalent(&lhs.gates, &rhs.gates);
        let eqc = <SymbolicEqv as EqvRelation<IRStmt<IRAexpr>, IRStmt<IRAexpr>>>::equivalent(&lhs.eq_constraints, &rhs.eq_constraints);
        let lookups = <SymbolicEqv as EqvRelation<IRStmt<IRAexpr>, IRStmt<IRAexpr>>>::equivalent(&lhs.lookups, &rhs.lookups);
        let mut callsites = true;
        let mut i: usize = 0;
        while i < lhs.callsites.len() && i < rhs.callsites.len()
            invariant
                i <= lhs.callsites@.len(),
                i <= rhs.callsites@.len(),
                callsites == forall|j: int| #![trigger lhs.callsites@[j]] 0 <= j < i
                    ==> callsite_equivalent(lhs.callsites@[j], rhs.callsites@[j]),
            decreases lhs.callsites@.len() - i,
        {
            if !callsite_eqv(&lhs.callsites[i], &rhs.callsites[i]) {
                callsites = false;
            }
            i = i + 1;
        }
        proof {
            assert(lhs.spec_parts() == (lhs.gates, lhs.eq_constraints, lhs.lookups));
            assert(rhs.spec_parts() == (rhs.gates, rhs.eq_constraints, rhs.lookups));
            assert(k == (lhs.spec_key() == rhs.spec_key()));
            assert(io == (lhs.spec_io_counts() == rhs.spec_io_counts()));
            assert(callsites == forall|j: int| #![trigger lhs.spec_callsites()[j]] 0 <= j < lhs.spec_callsites().len() && j < rhs.spec_callsites().len()
                ==> callsite_equivalent(lhs.spec_callsites()[j], rhs.spec_callsites()[j]));
        }
        k && io && gates && eqc && lookups && callsites
    }
}

/// Equivalence of callsites is symmetric.
proof fn lemma_callsite_symmetric(a: CallSite<IRAexpr>, b: CallSite<IRAexpr>)
    ensures
        callsite_equivalent(a, b) ==> callsite_equivalent(b, a),
{
    if callsite_equivalent(a, b) {
        assert forall|i: int| #![trigger b.inputs@[i]] 0 <= i < b.inputs@.len() && i < a.inputs@.len()
            implies crate::ir::aexpr::aexpr_equivalent(b.inputs@[i]@, a.inputs@[i]@) by {
            law_aexpr_equivalence(a.inputs@[i]@, b.inputs@[i]@, b.inputs@[i]@);
        }
        assert forall|i: int| #![trigger b.outputs@[i]] 0 <= i < b.outputs@.len() && i < a.outputs@.len()
            implies crate::ir::aexpr::aexpr_equivalent(b.outputs@[i]@, a.outputs@[i]@) by {
            law_aexpr_equivalence(a.outputs@[i]@, b.outputs@[i]@, b.outputs@[i]@);
        }
        assert forall|i: int| #![trigger b.output_vars@[i]] 0 <= i < b.output_vars@.len() && i < a.output_vars@.len()
            implies crate::func_io::func_io_equivalent(b.output_vars@[i], a.output_vars@[i]) by {
            assert(crate::func_io::func_io_equivalent(a.output_vars@[i], b.output_vars@[i]));
        }
    }
}

/// Every callsite is equivalent to itself.
proof fn lemma_callsite_reflexive(a: CallSite<IRAexpr>)
    ensures
        callsite_equivalent(a, a),
{
    assert forall|i: int| #![trigger a.inputs@[i]] 0 <= i < a.inputs@.len()
        implies crate::ir::aexpr::aexpr_equivalent(a.inputs@[i]@, a.inputs@[i]@) by {
        law_aexpr_equivalence(a.inputs@[i]@, a.inputs@[i]@, a.inputs@[i]@);
    }
    assert forall|i: int| #![trigger a.outputs@[i]] 0 <= i < a.outputs@.len()
        implies crate::ir::aexpr::aexpr_equivalent(a.outputs@[i]@, a.outputs@[i]@) by {
        law_aexpr_equivalence(a.outputs@[i]@, a.outputs@[i]@, a.outputs@[i]@);
    }
}

/// Symbolic equivalence of groups is symmetric, reflexive on the groups that are not the top
/// level one, and the top level group is equivalent to no group, not even to itself.
pub proof fn law_group_equivalence(a: GroupBody<IRAexpr>, b: GroupBody<IRAexpr>)
    ensures
        a.spec_key() is Some ==> group_equivalent(a, a),
        group_equivalent(a, b) ==> group_equivalent(b, a),
        a.spec_key() is None ==> !group_equivalent(a, b) && !group_equivalent(b, a),
{
    let (ga, ea, la) = a.spec_parts();
    let (gb, eb, lb) = b.spec_parts();
    law_stmt_equivalence(ga, gb);
    law_stmt_equivalence(ea, eb);
    law_stmt_equivalence(la, lb);
    let ca = a.spec_callsites();
    let cb = b.spec_callsites();
    assert forall|i: int| #![trigger ca[i]] 0 <= i < ca.len() implies callsite_equivalent(ca[i], ca[i]) by {
        lemma_callsite_reflexive(ca[i]);
    }
    assert forall|i: int| #![trigger cb[i]] 0 <= i < cb.len() && i < ca.len() && group_equivalent(a, b)
        implies callsite_equivalent(cb[i], ca[i]) by {
        assert(callsite_equivalent(ca[i], cb[i]));
        lemma_callsite_symmetric(ca[i], cb[i]);
    }
}

} // verus!

//! Equivalence relations between entities of the IR, and symbolic equivalence.
use vstd::prelude::*;
use crate::func_io::{FuncIO, func_io_equivalent, func_io_eqv};
use crate::ir::aexpr::{Aexpr, IRAexpr, aexpr_equivalent, eval};
use crate::ir::semantics::{holds, lemma_holds_pointwise};
use crate::ir::bexpr::{Bexpr, IRBexpr, bexpr_view};
use crate::ir::stmt::{IRStmt, flatten, lemma_flatten_leaves};

verus! {

/// Defines an equivalence relation between two entities.
pub trait EqvRelation<L, R> {
    /// Whether the two entities are equivalent.
    spec fn eqv(lhs: L, rhs: R) -> bool;

    /// Whether the two entities are equivalent, as [`EqvRelation::eqv`] says.
    fn equivalent(lhs: &L, rhs: &R) -> (r: bool)
        ensures
            r == Self::eqv(*lhs, *rhs);
}

/// Equivalence relation on symbolic equivalence.
///
/// Symbolic in this context means that when comparing entities, information that does not
/// affect the semantics of what the entities express is ignored: the region that a relative
/// advice cell belongs to, and the text of comments.
pub struct SymbolicEqv;

/// Two boolean expressions are equivalent when they are structurally equal: the same literal,
/// the same comparison between equivalent sides, conjunctions (or disjunctions) of as many
/// expressions, equivalent one by one, or negations of equivalent expressions.
pub open spec fn bexpr_equivalent(a: Bexpr<Aexpr>, b: Bexpr<Aexpr>) -> bool
    decreases a,
{
    match (a, b) {
        (Bexpr::True, Bexpr::True) => true,
        (Bexpr::False, Bexpr::False) => true,
        (Bexpr::Cmp(o1, l1, r1), Bexpr::Cmp(o2, l2, r2)) => o1 == o2 && aexpr_equivalent(l1, l2)
            && aexpr_equivalent(r1, r2),
        (Bexpr::And(xs), Bexpr::And(ys)) => xs.len() == ys.len() && forall|i: int| #![trigger xs[i]] 0 <= i < xs.len()
            && i < ys.len() ==> bexpr_equivalent(xs[i], ys[i]),
        (Bexpr::Or(xs), Bexpr::Or(ys)) => xs.len() == ys.len() && forall|i: int| #![trigger xs[i]] 0 <= i < xs.len()
            && i < ys.len() ==> bexpr_equivalent(xs[i], ys[i]),
        (Bexpr::Not(x), Bexpr::Not(y)) => bexpr_equivalent(*x, *y),
        _ => false,
    }
}

/// Two statements that are not sequences are equivalent when they are of the same kind with
/// equivalent parts: calls to the same function with equivalent inputs and outputs, the same
/// comparison between equivalent sides, equivalent variables, equivalent conditions; any two
/// comments are equivalent.
pub open spec fn leaf_equivalent(a: IRStmt<IRAexpr>, b: IRStmt<IRAexpr>) -> bool {
    match (a, b) {
        (IRStmt::ConstraintCall(x), IRStmt::ConstraintCall(y)) => x.callee@ == y.callee@
            && aexprs_equivalent(x.inputs@, y.inputs@) && func_ios_equivalent(x.outputs@, y.outputs@),
        (IRStmt::Constraint(x), IRStmt::Constraint(y)) => x.op == y.op && aexpr_equivalent(x.lhs@, y.lhs@)
            && aexpr_equivalent(x.rhs@, y.rhs@),
        (IRStmt::Comment(_), IRStmt::Comment(_)) => true,
        (IRStmt::AssumeDeterministic(x), IRStmt::AssumeDeterministic(y)) => func_io_equivalent(x.0, y.0),
        (IRStmt::Assert(x), IRStmt::Assert(y)) => bexpr_equivalent(bexpr_view(x.0), bexpr_view(y.0)),
        _ => false,
    }
}

/// Two statements are equivalent when they are structurally equal: their flattenings (see
/// [`flatten`]) have the same length, and the statements at the same places are equivalent.
pub open spec fn stmt_equivalent(a: IRStmt<IRAexpr>, b: IRStmt<IRAexpr>) -> bool {
    let fa = flatten(a);
    let fb = flatten(b);
    &&& fa.len() == fb.len()
    &&& forall|i: int| #![trigger fa[i]] 0 <= i < fa.len() && i < fb.len() ==> leaf_equivalent(fa[i], fb[i])
}

/// Two lists of arithmetic expressions are equivalent when their elements at the same
/// places, up to the length of the shorter, are equivalent.
pub open spec fn aexprs_equivalent(xs: Seq<IRAexpr>, ys: Seq<IRAexpr>) -> bool {
    forall|i: int| #![trigger xs[i]] 0 <= i < xs.len() && i < ys.len() ==> aexpr_equivalent(xs[i]@, ys[i]@)
}

/// Two lists of variables are equivalent when their elements at the same places, up to the
/// length of the shorter, are equivalent.
pub open spec fn func_ios_equivalent(xs: Seq<FuncIO>, ys: Seq<FuncIO>) -> bool {
    forall|i: int| #![trigger xs[i]] 0 <= i < xs.len() && i < ys.len() ==> func_io_equivalent(xs[i], ys[i])
}

impl EqvRelation<FuncIO, FuncIO> for SymbolicEqv {
    open spec fn eqv(lhs: FuncIO, rhs: FuncIO) -> bool {
        func_io_equivalent(lhs, rhs)
    }

    fn equivalent(lhs: &FuncIO, rhs: &FuncIO) -> (r: bool) {
        func_io_eqv(lhs, rhs)
    }
}

impl EqvRelation<IRAexpr, IRAexpr> for SymbolicEqv {
    /// Two arithmetic expressions are equivalent if they are structurally equal, constant
    /// values equal and variables are equivalent.
    open spec fn eqv(lhs: IRAexpr, rhs: IRAexpr) -> bool {
        aexpr_equivalent(lhs@, rhs@)
    }

    fn equivalent(lhs: &IRAexpr, rhs: &IRAexpr) -> (r: bool) {
        lhs.equivalent(rhs)
    }
}

impl EqvRelation<Vec<IRAexpr>, Vec<IRAexpr>> for SymbolicEqv {
    open spec fn eqv(lhs: Vec<IRAexpr>, rhs: Vec<IRAexpr>) -> bool {
        aexprs_equivalent(lhs@, rhs@)
    }

    fn equivalent(lhs: &Vec<IRAexpr>, rhs: &Vec<IRAexpr>) -> (r: bool) {
        let mut i: usize = 0;
        while i < lhs.len() && i < rhs.len()
            invariant
                i <= lhs@.len(),
                i <= rhs@.len(),
                forall|j: int| #![trigger lhs@[j]] 0 <= j < i ==> aexpr_equivalent(lhs@[j]@, rhs@[j]@),
            decreases lhs@.len() - i,
        {
            if !lhs[i].equivalent(&rhs[i]) {
                return false;
            }
            i = i + 1;
        }
        true
    }
}

/// Whether two lists have the same length and equivalent expressions at the same places, as
/// [`bexpr_equivalent`] says of conjunctions.
fn bexprs_equivalent(xs: &Vec<IRBexpr<IRAexpr>>, ys: &Vec<IRBexpr<IRAexpr>>) -> (r: bool)
    ensures
        r == (xs@.len() == ys@.len() && forall|i: int| #![trigger xs@[i]] 0 <= i < xs@.len() && i < ys@.len()
            ==> bexpr_equivalent(bexpr_view(xs@[i]), bexpr_view(ys@[i]))),
    decreases xs,
{
    if xs.len() != ys.len() {
        return false;
    }
    let mut i: usize = 0;
    while i < xs.len() && i < ys.len()
        invariant
            i <= xs@.len(),
            i <= ys@.len(),
            forall|j: int| #![trigger xs@[j]] 0 <= j < i ==> bexpr_equivalent(bexpr_view(xs@[j]), bexpr_view(ys@[j])),
        decreases xs@.len() - i,
    {
        proof {
            assert(decreases_to!(xs => xs@));
            assert(decreases_to!(xs@ => xs@[i as int]));
        }
        if !bexpr_equivalent_exec(&xs[i], &ys[i]) {
            return false;
        }
        i = i + 1;
    }
    true
}

/// Whether two boolean expressions are equivalent, as [`bexpr_equivalent`] says.
fn bexpr_equivalent_exec(a: &IRBexpr<IRAexpr>, b: &IRBexpr<IRAexpr>) -> (r: bool)
    ensures
        r == bexpr_equivalent(bexpr_view(*a), bexpr_view(*b)),
    decreases a,
{
    match (a, b) {
        (IRBexpr::True, IRBexpr::True) => true,
        (IRBexpr::False, IRBexpr::False) => true,
        (IRBexpr::Cmp(o1, l1, r1), IRBexpr::Cmp(o2, l2, r2)) => *o1 == *o2 && l1.equivalent(l2) && r1.equivalent(r2),
        (IRBexpr::And(xs), IRBexpr::And(ys)) => {
            let r = bexprs_equivalent(xs, ys);
            proof {
                lemma_list_equivalent(*xs, *ys);
            }
            r
        },
        (IRBexpr::Or(xs), IRBexpr::Or(ys)) => {
            let r = bexprs_equivalent(xs, ys);
            proof {
                lemma_list_equivalent(*xs, *ys);
            }
            r
        },
        (IRBexpr::Not(x), IRBexpr::Not(y)) => bexpr_equivalent_exec(&**x, &**y),
        _ => {
            proof {
                assert(!bexpr_equivalent(bexpr_view(*a), bexpr_view(*b))) by {
                    match (a, b) {
                        (IRBexpr::True, _) => {},
                        (IRBexpr::False, _) => {},
                        (IRBexpr::Cmp(_, _, _), _) => {},
                        (IRBexpr::And(_), _) => {},
                        (IRBexpr::Or(_), _) => {},
                        (IRBexpr::Not(_), _) => {},
                    }
                }
            }
            false
        },
    }
}

/// The equivalence of two conjunctions (or disjunctions) is that of their elements.
proof fn lemma_list_equivalent(xs: Vec<IRBexpr<IRAexpr>>, ys: Vec<IRBexpr<IRAexpr>>)
    ensures
        bexpr_equivalent(bexpr_view(IRBexpr::And(xs)), bexpr_view(IRBexpr::And(ys)))
            == (xs@.len() == ys@.len() && forall|i: int| #![trigger xs@[i]] 0 <= i < xs@.len() && i < ys@.len()
            ==> bexpr_equivalent(bexpr_view(xs@[i]), bexpr_view(ys@[i]))),
        bexpr_equivalent(bexpr_view(IRBexpr::Or(xs)), bexpr_view(IRBexpr::Or(ys)))
            == (xs@.len() == ys@.len() && forall|i: int| #![trigger xs@[i]] 0 <= i < xs@.len() && i < ys@.len()
            ==> bexpr_equivalent(bexpr_view(xs@[i]), bexpr_view(ys@[i]))),
{
    let va = bexpr_view(IRBexpr::And(xs));
    let vb = bexpr_view(IRBexpr::And(ys));
    assert(va is And && vb is And);
    let sx = va->And_0;
    let sy = vb->And_0;
    assert(sx.len() == xs@.len() && sy.len() == ys@.len());
    assert(forall|i: int| 0 <= i < xs@.len() ==> #[trigger] sx[i] == bexpr_view(xs@[i]));
    assert(forall|i: int| 0 <= i < ys@.len() ==> #[trigger] sy[i] == bexpr_view(ys@[i]));
    let oa = bexpr_view(IRBexpr::Or(xs));
    let ob = bexpr_view(IRBexpr::Or(ys));
    assert(oa is Or && ob is Or);
    assert(oa->Or_0 == sx && ob->Or_0 == sy);
    let p = forall|i: int| #![trigger xs@[i]] 0 <= i < xs@.len() && i < ys@.len()
        ==> bexpr_equivalent(bexpr_view(xs@[i]), bexpr_view(ys@[i]));
    let q = forall|i: int| #![trigger sx[i]] 0 <= i < sx.len() && i < sy.len() ==> bexpr_equivalent(sx[i], sy[i]);
    assert(bexpr_equivalent(va, vb) == (sx.len() == sy.len() && q));
    assert(bexpr_equivalent(oa, ob) == (sx.len() == sy.len() && q));
    assert(p == q) by {
        if p {
            assert forall|i: int| #![trigger sx[i]] 0 <= i < sx.len() && i < sy.len() implies bexpr_equivalent(sx[i], sy[i]) by {
                assert(bexpr_equivalent(bexpr_view(xs@[i]), bexpr_view(ys@[i])));
            }
        }
        if q {
            assert forall|i: int| #![trigger xs@[i]] 0 <= i < xs@.len() && i < ys@.len() implies bexpr_equivalent(bexpr_view(xs@[i]), bexpr_view(ys@[i])) by {
                assert(bexpr_equivalent(sx[i], sy[i]));
            }
        }
    }
}

impl EqvRelation<IRBexpr<IRAexpr>, IRBexpr<IRAexpr>> for SymbolicEqv {
    open spec fn eqv(lhs: IRBexpr<IRAexpr>, rhs: IRBexpr<IRAexpr>) -> bool {
        bexpr_equivalent(bexpr_view(lhs), bexpr_view(rhs))
    }

    fn equivalent(lhs: &IRBexpr<IRAexpr>, rhs: &IRBexpr<IRAexpr>) -> (r: bool) {
        bexpr_equivalent_exec(lhs, rhs)
    }
}

impl EqvRelation<Vec<FuncIO>, Vec<FuncIO>> for SymbolicEqv {
    open spec fn eqv(lhs: Vec<FuncIO>, rhs: Vec<FuncIO>) -> bool {
        func_ios_equivalent(lhs@, rhs@)
    }

    fn equivalent(lhs: &Vec<FuncIO>, rhs: &Vec<FuncIO>) -> (r: bool) {
        func_ios_eqv(lhs, rhs)
    }
}

/// Whether the variables of two lists at the same places, up to the length of the shorter,
/// are equivalent, as [`func_ios_equivalent`] says.
fn func_ios_eqv(xs: &Vec<FuncIO>, ys: &Vec<FuncIO>) -> (r: bool)
    ensures
        r == func_ios_equivalent(xs@, ys@),
{
    let mut i: usize = 0;
    while i < xs.len() && i < ys.len()
        invariant
            i <= xs@.len(),
            i <= ys@.len(),
            forall|j: int| #![trigger xs@[j]] 0 <= j < i ==> func_io_equivalent(xs@[j], ys@[j]),
        decreases xs@.len() - i,
    {
        if !func_io_eqv(&xs[i], &ys[i]) {
            return false;
        }
        i = i + 1;
    }
    true
}

/// Whether two statements that are not sequences are equivalent, as [`leaf_equivalent`] says.
fn leaf_equivalent_exec(a: &IRStmt<IRAexpr>, b: &IRStmt<IRAexpr>) -> (r: bool)
    ensures
        r == leaf_equivalent(*a, *b),
{
    match (a, b) {
        (IRStmt::ConstraintCall(x), IRStmt::ConstraintCall(y)) => x.callee == y.callee
            && <SymbolicEqv as EqvRelation<Vec<IRAexpr>, Vec<IRAexpr>>>::equivalent(&x.inputs, &y.inputs)
            && func_ios_eqv(&x.outputs, &y.outputs),
        (IRStmt::Constraint(x), IRStmt::Constraint(y)) => x.op == y.op && x.lhs.equivalent(&y.lhs)
            && x.rhs.equivalent(&y.rhs),
        (IRStmt::Comment(_), IRStmt::Comment(_)) => true,
        (IRStmt::AssumeDeterministic(x), IRStmt::AssumeDeterministic(y)) => func_io_eqv(&x.0, &y.0),
        (IRStmt::Assert(x), IRStmt::Assert(y)) => bexpr_equivalent_exec(&x.0, &y.0),
        _ => false,
    }
}

impl EqvRelation<IRStmt<IRAexpr>, IRStmt<IRAexpr>> for SymbolicEqv {
    /// Two statements are equivalent if they are structurally equal: their statements, however
    /// nested in sequences, are as many and equivalent one by one.
    open spec fn eqv(lhs: IRStmt<IRAexpr>, rhs: IRStmt<IRAexpr>) -> bool {
        stmt_equivalent(lhs, rhs)
    }

    fn equivalent(lhs: &IRStmt<IRAexpr>, rhs: &IRStmt<IRAexpr>) -> (r: bool) {
        let mut la: Vec<&IRStmt<IRAexpr>> = Vec::new();
        let mut lb: Vec<&IRStmt<IRAexpr>> = Vec::new();
        lhs.leaves(&mut la);
        rhs.leaves(&mut lb);
        let ghost fa = flatten(*lhs);
        let ghost fb = flatten(*rhs);
        if la.len() != lb.len() {
            return false;
        }
        let mut i: usize = 0;
        while i < la.len() && i < lb.len()
            invariant
                fa == flatten(*lhs),
                fb == flatten(*rhs),
                la@.len() == fa.len(),
                lb@.len() == fb.len(),
                forall|j: int| #![trigger fa[j]] 0 <= j < fa.len() ==> *la@[j] == fa[j],
                forall|j: int| #![trigger fb[j]] 0 <= j < fb.len() ==> *lb@[j] == fb[j],
                i <= la@.len(),
                i <= lb@.len(),
                forall|j: int| #![trigger fa[j]] 0 <= j < i ==> leaf_equivalent(fa[j], fb[j]),
            decreases la@.len() - i,
        {
            assert(*la@[i as int] == fa[i as int]);
            assert(*lb@[i as int] == fb[i as int]);
            if !leaf_equivalent_exec(la[i], lb[i]) {
                return false;
            }
            i = i + 1;
        }
        true
    }
}

/// Symbolic equivalence of variables is an equivalence relation: reflexive, symmetric and
/// transitive.
pub proof fn law_func_io_equivalence(a: FuncIO, b: FuncIO, c: FuncIO)
    ensures
        func_io_equivalent(a, a),
        func_io_equivalent(a, b) ==> func_io_equivalent(b, a),
        func_io_equivalent(a, b) && func_io_equivalent(b, c) ==> func_io_equivalent(a, c),
{
}

/// Equivalent arithmetic expressions have the same value wherever equivalent variables have
/// the same value: symbolic equivalence only forgets what does not change the meaning.
pub proof fn law_aexpr_equivalence_preserves_value(a: Aexpr, b: Aexpr, env: spec_fn(FuncIO) -> int)
    requires
        forall|x: FuncIO, y: FuncIO| #[trigger] func_io_equivalent(x, y) ==> env(x) == env(y),
        aexpr_equivalent(a, b),
    ensures
        eval(a, env) == eval(b, env),
    decreases a,
{
    match (a, b) {
        (Aexpr::Negated(x), Aexpr::Negated(y)) => {
            law_aexpr_equivalence_preserves_value(*x, *y, env);
        },
        (Aexpr::Sum(x0, x1), Aexpr::Sum(y0, y1)) => {
            law_aexpr_equivalence_preserves_value(*x0, *y0, env);
            law_aexpr_equivalence_preserves_value(*x1, *y1, env);
        },
        (Aexpr::Product(x0, x1), Aexpr::Product(y0, y1)) => {
            law_aexpr_equivalence_preserves_value(*x0, *y0, env);
            law_aexpr_equivalence_preserves_value(*x1, *y1, env);
        },
        _ => {},
    }
}

/// Equivalent boolean expressions have the same truth value wherever equivalent variables
/// have the same value.
pub proof fn law_bexpr_equivalence_preserves_truth(a: Bexpr<Aexpr>, b: Bexpr<Aexpr>, env: spec_fn(FuncIO) -> int, p: nat)
    requires
        forall|x: FuncIO, y: FuncIO| #[trigger] func_io_equivalent(x, y) ==> env(x) == env(y),
        bexpr_equivalent(a, b),
    ensures
        holds(a, env, p) == holds(b, env, p),
    decreases a,
{
    match (a, b) {
        (Bexpr::Cmp(_, l1, r1), Bexpr::Cmp(_, l2, r2)) => {
            law_aexpr_equivalence_preserves_value(l1, l2, env);
            law_aexpr_equivalence_preserves_value(r1, r2, env);
        },
        (Bexpr::And(xs), Bexpr::And(ys)) => {
            assert forall|i: int| #![trigger ys[i]] 0 <= i < xs.len() implies holds(ys[i], env, p) == holds(xs[i], env, p) by {
                assert(decreases_to!(a => xs));
                assert(bexpr_equivalent(xs[i], ys[i]));
                law_bexpr_equivalence_preserves_truth(xs[i], ys[i], env, p);
            }
            lemma_holds_pointwise(xs, ys, env, p);
        },
        (Bexpr::Or(xs), Bexpr::Or(ys)) => {
            assert forall|i: int| #![trigger ys[i]] 0 <= i < xs.len() implies holds(ys[i], env, p) == holds(xs[i], env, p) by {
                assert(decreases_to!(a => xs));
                assert(bexpr_equivalent(xs[i], ys[i]));
                law_bexpr_equivalence_preserves_truth(xs[i], ys[i], env, p);
            }
            lemma_holds_pointwise(xs, ys, env, p);
        },
        (Bexpr::Not(x), Bexpr::Not(y)) => {
            law_bexpr_equivalence_preserves_truth(*x, *y, env, p);
        },
        _ => {},
    }
}

/// Symbolic equivalence of arithmetic expressions is an equivalence relation: reflexive,
/// symmetric and transitive.
pub proof fn law_aexpr_equivalence(a: Aexpr, b: Aexpr, c: Aexpr)
    ensures
        aexpr_equivalent(a, a),
        aexpr_equivalent(a, b) ==> aexpr_equivalent(b, a),
        aexpr_equivalent(a, b) && aexpr_equivalent(b, c) ==> aexpr_equivalent(a, c),
    decreases a,
{
    match (a, b, c) {
        (Aexpr::Negated(x), Aexpr::Negated(y), Aexpr::Negated(z)) => {
            law_aexpr_equivalence(*x, *y, *z);
        },
        (Aexpr::Sum(x0, x1), Aexpr::Sum(y0, y1), Aexpr::Sum(z0, z1)) => {
            law_aexpr_equivalence(*x0, *y0, *z0);
            law_aexpr_equivalence(*x1, *y1, *z1);
        },
        (Aexpr::Product(x0, x1), Aexpr::Product(y0, y1), Aexpr::Product(z0, z1)) => {
            law_aexpr_equivalence(*x0, *y0, *z0);
            law_aexpr_equivalence(*x1, *y1, *z1);
        },
        _ => {
            lemma_aexpr_reflexive(a);
            lemma_aexpr_symmetric(a, b);
        },
    }
}

/// Every arithmetic expression is equivalent to itself.
proof fn lemma_aexpr_reflexive(a: Aexpr)
    ensures
        aexpr_equivalent(a, a),
    decreases a,
{
    match a {
        Aexpr::Negated(x) => lemma_aexpr_reflexive(*x),
        Aexpr::Sum(x, y) => {
            lemma_aexpr_reflexive(*x);
            lemma_aexpr_reflexive(*y);
        },
        Aexpr::Product(x, y) => {
            lemma_aexpr_reflexive(*x);
            lemma_aexpr_reflexive(*y);
        },
        _ => {},
    }
}

/// Equivalence of arithmetic expressions is symmetric.
proof fn lemma_aexpr_symmetric(a: Aexpr, b: Aexpr)
    ensures
        aexpr_equivalent(a, b) ==> aexpr_equivalent(b, a),
    decreases a,
{
    match (a, b) {
        (Aexpr::Negated(x), Aexpr::Negated(y)) => lemma_aexpr_symmetric(*x, *y),
        (Aexpr::Sum(x0, x1), Aexpr::Sum(y0, y1)) => {
            lemma_aexpr_symmetric(*x0, *y0);
            lemma_aexpr_symmetric(*x1, *y1);
        },
        (Aexpr::Product(x0, x1), Aexpr::Product(y0, y1)) => {
            lemma_aexpr_symmetric(*x0, *y0);
            lemma_aexpr_symmetric(*x1, *y1);
        },
        _ => {},
    }
}

/// Symbolic equivalence of boolean expressions is an equivalence relation: reflexive,
/// symmetric and transitive.
pub proof fn law_bexpr_equivalence(a: Bexpr<Aexpr>, b: Bexpr<Aexpr>, c: Bexpr<Aexpr>)
    ensures
        bexpr_equivalent(a, a),
        bexpr_equivalent(a, b) ==> bexpr_equivalent(b, a),
        bexpr_equivalent(a, b) && bexpr_equivalent(b, c) ==> bexpr_equivalent(a, c),
    decreases a,
{
    match (a, b, c) {
        (Bexpr::Cmp(_, l1, r1), Bexpr::Cmp(_, l2, r2), Bexpr::Cmp(_, l3, r3)) => {
            law_aexpr_equivalence(l1, l2, l3);
            law_aexpr_equivalence(r1, r2, r3);
        },
        (Bexpr::And(xs), Bexpr::And(ys), Bexpr::And(zs)) => {
            lemma_bexpr_list(a, b, c, xs, ys, zs);
        },
        (Bexpr::Or(xs), Bexpr::Or(ys), Bexpr::Or(zs)) => {
            lemma_bexpr_list(a, b, c, xs, ys, zs);
        },
        (Bexpr::Not(x), Bexpr::Not(y), Bexpr::Not(z)) => {
            law_bexpr_equivalence(*x, *y, *z);
        },
        _ => {
            lemma_bexpr_reflexive(a);
            lemma_bexpr_symmetric(a, b);
        },
    }
}

/// The laws of [`law_bexpr_equivalence`] for lists, from those of their elements.
proof fn lemma_bexpr_list(a: Bexpr<Aexpr>, b: Bexpr<Aexpr>, c: Bexpr<Aexpr>, xs: Seq<Bexpr<Aexpr>>, ys: Seq<Bexpr<Aexpr>>, zs: Seq<Bexpr<Aexpr>>)
    requires
        (a == Bexpr::And(xs) && b == Bexpr::And(ys) && c == Bexpr::And(zs))
            || (a == Bexpr::Or(xs) && b == Bexpr::Or(ys) && c == Bexpr::Or(zs)),
    ensures
        bexpr_equivalent(a, a),
        bexpr_equivalent(a, b) ==> bexpr_equivalent(b, a),
        bexpr_equivalent(a, b) && bexpr_equivalent(b, c) ==> bexpr_equivalent(a, c),
    decreases a, 0int,
{
    assert(decreases_to!(a => xs)) by {
        if a is And {
            assert(a->And_0 == xs);
        } else {
            assert(a->Or_0 == xs);
        }
    }
    assert forall|i: int| #![trigger xs[i]] 0 <= i < xs.len() implies bexpr_equivalent(xs[i], xs[i]) by {
        assert(decreases_to!(xs => xs[i]));
        law_bexpr_equivalence(xs[i], xs[i], xs[i]);
    }
    assert forall|i: int| #![trigger xs[i]] 0 <= i < xs.len() && i < ys.len() && bexpr_equivalent(xs[i], ys[i])
        implies bexpr_equivalent(ys[i], xs[i]) by {
        assert(decreases_to!(xs => xs[i]));
        law_bexpr_equivalence(xs[i], ys[i], ys[i]);
    }
    if bexpr_equivalent(a, b) && bexpr_equivalent(b, c) {
        assert forall|i: int| #![trigger xs[i]] 0 <= i < xs.len() && i < zs.len() implies bexpr_equivalent(xs[i], zs[i]) by {
            assert(decreases_to!(xs => xs[i]));
            assert(bexpr_equivalent(xs[i], ys[i]));
            assert(bexpr_equivalent(ys[i], zs[i]));
            law_bexpr_equivalence(xs[i], ys[i], zs[i]);
        }
    }
}

/// Every boolean expression is equivalent to itself.
proof fn lemma_bexpr_reflexive(a: Bexpr<Aexpr>)
    ensures
        bexpr_equivalent(a, a),
    decreases a,
{
    match a {
        Bexpr::Cmp(_, l, r) => {
            law_aexpr_equivalence(l, l, l);
            law_aexpr_equivalence(r, r, r);
        },
        Bexpr::And(xs) => {
            assert forall|i: int| 0 <= i < xs.len() implies bexpr_equivalent(xs[i], xs[i]) by {
                lemma_bexpr_reflexive(xs[i]);
            }
        },
        Bexpr::Or(xs) => {
            assert forall|i: int| 0 <= i < xs.len() implies bexpr_equivalent(xs[i], xs[i]) by {
                lemma_bexpr_reflexive(xs[i]);
            }
        },
        Bexpr::Not(x) => lemma_bexpr_reflexive(*x),
        _ => {},
    }
}

/// Equivalence of boolean expressions is symmetric.
proof fn lemma_bexpr_symmetric(a: Bexpr<Aexpr>, b: Bexpr<Aexpr>)
    ensures
        bexpr_equivalent(a, b) ==> bexpr_equivalent(b, a),
    decreases a,
{
    match (a, b) {
        (Bexpr::Cmp(_, l1, r1), Bexpr::Cmp(_, l2, r2)) => {
            law_aexpr_equivalence(l1, l2, l2);
            law_aexpr_equivalence(r1, r2, r2);
        },
        (Bexpr::And(xs), Bexpr::And(ys)) => {
            assert forall|i: int| 0 <= i < xs.len() && i < ys.len() && bexpr_equivalent(xs[i], ys[i])
                implies bexpr_equivalent(ys[i], xs[i]) by {
                lemma_bexpr_symmetric(xs[i], ys[i]);
            }
        },
        (Bexpr::Or(xs), Bexpr::Or(ys)) => {
            assert forall|i: int| 0 <= i < xs.len() && i < ys.len() && bexpr_equivalent(xs[i], ys[i])
                implies bexpr_equivalent(ys[i], xs[i]) by {
                lemma_bexpr_symmetric(xs[i], ys[i]);
            }
        },
        (Bexpr::Not(x), Bexpr::Not(y)) => lemma_bexpr_symmetric(*x, *y),
        _ => {},
    }
}

/// Equivalence of statements that are not sequences is symmetric.
proof fn lemma_leaf_symmetric(a: IRStmt<IRAexpr>, b: IRStmt<IRAexpr>)
    ensures
        leaf_equivalent(a, b) ==> leaf_equivalent(b, a),
{
    match (a, b) {
        (IRStmt::ConstraintCall(x), IRStmt::ConstraintCall(y)) => {
            assert forall|i: int| #![trigger y.inputs@[i]] 0 <= i < y.inputs@.len() && i < x.inputs@.len()
                && aexprs_equivalent(x.inputs@, y.inputs@) implies aexpr_equivalent(y.inputs@[i]@, x.inputs@[i]@) by {
                assert(aexpr_equivalent(x.inputs@[i]@, y.inputs@[i]@));
                law_aexpr_equivalence(x.inputs@[i]@, y.inputs@[i]@, y.inputs@[i]@);
            }
            assert forall|i: int| #![trigger y.outputs@[i]] 0 <= i < y.outputs@.len() && i < x.outputs@.len()
                && func_ios_equivalent(x.outputs@, y.outputs@) implies func_io_equivalent(y.outputs@[i], x.outputs@[i]) by {
                assert(func_io_equivalent(x.outputs@[i], y.outputs@[i]));
            }
        },
        (IRStmt::Constraint(x), IRStmt::Constraint(y)) => {
            law_aexpr_equivalence(x.lhs@, y.lhs@, y.lhs@);
            law_aexpr_equivalence(x.rhs@, y.rhs@, y.rhs@);
        },
        (IRStmt::Assert(x), IRStmt::Assert(y)) => {
            law_bexpr_equivalence(bexpr_view(x.0), bexpr_view(y.0), bexpr_view(y.0));
        },
        _ => {},
    }
}

/// Whether two statements are of the same kind.
pub open spec fn same_kind<A, B>(a: IRStmt<A>, b: IRStmt<B>) -> bool {
    match (a, b) {
        (IRStmt::ConstraintCall(_), IRStmt::ConstraintCall(_)) => true,
        (IRStmt::Constraint(_), IRStmt::Constraint(_)) => true,
        (IRStmt::Comment(_), IRStmt::Comment(_)) => true,
        (IRStmt::AssumeDeterministic(_), IRStmt::AssumeDeterministic(_)) => true,
        (IRStmt::Assert(_), IRStmt::Assert(_)) => true,
        (IRStmt::Sequence(_), IRStmt::Sequence(_)) => true,
        _ => false,
    }
}

/// Symbolic equivalence of statements is reflexive and symmetric, and statements that are not
/// structurally equal (whose flattenings differ in length, or hold statements of different
/// kinds at the same place) are never equivalent.
pub proof fn law_stmt_equivalence(a: IRStmt<IRAexpr>, b: IRStmt<IRAexpr>)
    ensures
        stmt_equivalent(a, a),
        stmt_equivalent(a, b) ==> stmt_equivalent(b, a),
        flatten(a).len() != flatten(b).len() ==> !stmt_equivalent(a, b),
        forall|i: int| #![trigger flatten(a)[i]] 0 <= i < flatten(a).len() && i < flatten(b).len()
            && !same_kind(flatten(a)[i], flatten(b)[i]) ==> !stmt_equivalent(a, b),
{
    let fa = flatten(a);
    let fb = flatten(b);
    assert forall|i: int| #![trigger fb[i]] 0 <= i < fb.len() && i < fa.len() && stmt_equivalent(a, b)
        implies leaf_equivalent(fb[i], fa[i]) by {
        assert(leaf_equivalent(fa[i], fb[i]));
        lemma_leaf_symmetric(fa[i], fb[i]);
    }
    lemma_flatten_leaves(a);
    assert forall|i: int| #![trigger fa[i]] 0 <= i < fa.len() implies leaf_equivalent(fa[i], fa[i]) by {
        lemma_leaf_reflexive(fa[i]);
    }
}

/// A statement that is not a sequence is equivalent to itself.
proof fn lemma_leaf_reflexive(a: IRStmt<IRAexpr>)
    ensures
        !(a is Sequence) ==> leaf_equivalent(a, a),
{
    match a {
        IRStmt::ConstraintCall(x) => {
            assert forall|i: int| #![trigger x.inputs@[i]] 0 <= i < x.inputs@.len() implies aexpr_equivalent(x.inputs@[i]@, x.inputs@[i]@) by {
                law_aexpr_equivalence(x.inputs@[i]@, x.inputs@[i]@, x.inputs@[i]@);
            }
        },
        IRStmt::Constraint(x) => {
            law_aexpr_equivalence(x.lhs@, x.lhs@, x.lhs@);
            law_aexpr_equivalence(x.rhs@, x.rhs@, x.rhs@);
        },
        IRStmt::Assert(x) => {
            law_bexpr_equivalence(bexpr_view(x.0), bexpr_view(x.0), bexpr_view(x.0));
        },
        _ => {},
    }
}

} // verus!

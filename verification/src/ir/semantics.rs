//! Meaning of boolean expressions over arithmetic expressions in a prime field, and the
//! rewrites that keep it: constant folding and canonicalization.
use vstd::prelude::*;
use crate::func_io::FuncIO;
use crate::felt::Felt;
use crate::ir::aexpr::{
    Aexpr, IRAexpr, eval, fold, lemma_fold_reduces, lemma_fold_sound, consts_at_most, no_const_equal,
};
use crate::ir::bexpr::{Bexpr, IRBexpr, bconst, from_bool, views, lemma_list_view};
use crate::ir::canon::{canonical_constraint, canonicalize_constraint, lemma_canonical_constraint_sound};
use crate::ir::compare::{CmpOp, op_holds, negated_op};

verus! {

/// Truth value of a boolean expression in the field of order `p` when the variables take the
/// values given by `env`. Comparisons compare the canonical representatives in `[0, p)` of
/// both sides.
pub open spec fn holds(e: Bexpr<Aexpr>, env: spec_fn(FuncIO) -> int, p: nat) -> bool
    decreases e,
{
    match e {
        Bexpr::True => true,
        Bexpr::False => false,
        Bexpr::Cmp(op, l, r) => op_holds(op, eval(l, env) % (p as int), eval(r, env) % (p as int)),
        Bexpr::And(xs) => forall|i: int| #![trigger xs[i]] 0 <= i < xs.len() ==> holds(xs[i], env, p),
        Bexpr::Or(xs) => exists|i: int| #![trigger xs[i]] 0 <= i < xs.len() && holds(xs[i], env, p),
        Bexpr::Not(x) => !holds(*x, env, p),
    }
}

/// The truth value of an expression follows logic: a negation holds when its operand does
/// not, a conjunction when both sides hold, a disjunction when one does; the empty conjunction
/// holds and the empty disjunction does not; a comparison holds exactly when the comparison
/// with the negated operator does not, and compares the values of its sides in the field.
pub proof fn law_holds_logic(a: Bexpr<Aexpr>, b: Bexpr<Aexpr>, op: CmpOp, l: Aexpr, r: Aexpr, env: spec_fn(FuncIO) -> int, p: nat)
    ensures
        holds(Bexpr::Not(Box::new(a)), env, p) == !holds(a, env, p),
        holds(Bexpr::And(seq![a, b]), env, p) == (holds(a, env, p) && holds(b, env, p)),
        holds(Bexpr::Or(seq![a, b]), env, p) == (holds(a, env, p) || holds(b, env, p)),
        holds(Bexpr::And(Seq::empty()), env, p),
        !holds(Bexpr::Or(Seq::empty()), env, p),
        holds(Bexpr::True, env, p) && !holds(Bexpr::False, env, p),
        holds(Bexpr::Cmp(negated_op(op), l, r), env, p) == !holds(Bexpr::Cmp(op, l, r), env, p),
        holds(Bexpr::Cmp(CmpOp::Eq, l, r), env, p) == (eval(l, env) % (p as int) == eval(r, env) % (p as int)),
        holds(Bexpr::Cmp(CmpOp::Lt, l, r), env, p) == (eval(l, env) % (p as int) < eval(r, env) % (p as int)),
{
    lemma_and_of_two(a, b, env, p);
    lemma_or_of_two(a, b, env, p);
}

proof fn lemma_and_of_two(a: Bexpr<Aexpr>, b: Bexpr<Aexpr>, env: spec_fn(FuncIO) -> int, p: nat)
    ensures
        holds(Bexpr::And(seq![a, b]), env, p) == (holds(a, env, p) && holds(b, env, p)),
{
    let ab = seq![a, b];
    assert(ab.len() == 2 && ab[0] == a && ab[1] == b);
    lemma_unfold_list(ab, env, p);
    if holds(a, env, p) && holds(b, env, p) {
        assert forall|i: int| #![trigger ab[i]] 0 <= i < ab.len() implies holds(ab[i], env, p) by {}
    }
}

proof fn lemma_or_of_two(a: Bexpr<Aexpr>, b: Bexpr<Aexpr>, env: spec_fn(FuncIO) -> int, p: nat)
    ensures
        holds(Bexpr::Or(seq![a, b]), env, p) == (holds(a, env, p) || holds(b, env, p)),
{
    let ab = seq![a, b];
    assert(ab.len() == 2 && ab[0] == a && ab[1] == b);
    lemma_unfold_list(ab, env, p);
    if !holds(a, env, p) && !holds(b, env, p) {
        assert forall|i: int| #![trigger ab[i]] 0 <= i < ab.len() implies !holds(ab[i], env, p) by {}
    }
}

/// Every comparison of the expression compares sides with no constant equal to `p`.
pub open spec fn leaves_without(e: Bexpr<Aexpr>, p: nat) -> bool
    decreases e,
{
    match e {
        Bexpr::True => true,
        Bexpr::False => true,
        Bexpr::Cmp(_, l, r) => no_const_equal(l, p) && no_const_equal(r, p),
        Bexpr::And(xs) => forall|i: int| #![trigger xs[i]] 0 <= i < xs.len() ==> leaves_without(xs[i], p),
        Bexpr::Or(xs) => forall|i: int| #![trigger xs[i]] 0 <= i < xs.len() ==> leaves_without(xs[i], p),
        Bexpr::Not(x) => leaves_without(*x, p),
    }
}

/// Folds the elements of a conjunction or disjunction from the first on, up to and including
/// the first one that does not fold into a literal; the elements after it are kept as they are.
pub open spec fn fold_prefix(xs: Seq<Bexpr<Aexpr>>, p: nat) -> Seq<Bexpr<Aexpr>>
    decreases xs, 1int,
{
    if xs.len() == 0 {
        Seq::empty()
    } else {
        let y = bfold(xs[0], p);
        if bconst(y) is Some {
            seq![y] + fold_prefix(xs.drop_first(), p)
        } else {
            seq![y] + xs.drop_first()
        }
    }
}

/// Every element of the sequence is a literal.
pub open spec fn all_literals(ys: Seq<Bexpr<Aexpr>>) -> bool {
    forall|i: int| #![trigger ys[i]] 0 <= i < ys.len() ==> bconst(ys[i]) is Some
}

/// The result of folding the constants of a boolean expression in the field of order `p`.
///
/// The sides of comparisons are folded and a comparison of two constants becomes a literal; a
/// conjunction or disjunction whose elements all fold into literals becomes a literal, and
/// otherwise keeps its elements folded as [`fold_prefix`] says; the negation of a literal
/// becomes the opposite literal.
pub open spec fn bfold(e: Bexpr<Aexpr>, p: nat) -> Bexpr<Aexpr>
    decreases e, 0int,
{
    match e {
        Bexpr::True => Bexpr::True,
        Bexpr::False => Bexpr::False,
        Bexpr::Cmp(op, l, r) => {
            let a = fold(l, p);
            let b = fold(r, p);
            if a is Constant && b is Constant {
                from_bool(op_holds(op, a->Constant_0 as int, b->Constant_0 as int))
            } else {
                Bexpr::Cmp(op, a, b)
            }
        },
        Bexpr::And(xs) => {
            let ys = fold_prefix(xs, p);
            if all_literals(ys) {
                from_bool(forall|i: int| #![trigger ys[i]] 0 <= i < ys.len() ==> ys[i] is True)
            } else {
                Bexpr::And(ys)
            }
        },
        Bexpr::Or(xs) => {
            let ys = fold_prefix(xs, p);
            if all_literals(ys) {
                from_bool(exists|i: int| #![trigger ys[i]] 0 <= i < ys.len() && ys[i] is True)
            } else {
                Bexpr::Or(ys)
            }
        },
        Bexpr::Not(x) => {
            let y = bfold(*x, p);
            match bconst(y) {
                Some(b) => from_bool(!b),
                None => Bexpr::Not(Box::new(y)),
            }
        },
    }
}

/// What a conjunction and a disjunction of the elements of `xs` mean.
proof fn lemma_unfold_list(xs: Seq<Bexpr<Aexpr>>, env: spec_fn(FuncIO) -> int, p: nat)
    ensures
        holds(Bexpr::And(xs), env, p) == forall|i: int| #![trigger xs[i]] 0 <= i < xs.len() ==> holds(xs[i], env, p),
        holds(Bexpr::Or(xs), env, p) == exists|i: int| #![trigger xs[i]] 0 <= i < xs.len() && holds(xs[i], env, p),
{
    let a = Bexpr::And(xs);
    let o = Bexpr::Or(xs);
    assert(a is And && a->And_0 == xs);
    assert(o is Or && o->Or_0 == xs);
}

/// Conjunctions (and disjunctions) of sequences whose elements hold alike, one by one, hold
/// alike.
pub proof fn lemma_holds_pointwise(xs: Seq<Bexpr<Aexpr>>, ys: Seq<Bexpr<Aexpr>>, env: spec_fn(FuncIO) -> int, p: nat)
    requires
        xs.len() == ys.len(),
        forall|i: int| #![trigger ys[i]] 0 <= i < xs.len() ==> holds(ys[i], env, p) == holds(xs[i], env, p),
    ensures
        holds(Bexpr::And(ys), env, p) == holds(Bexpr::And(xs), env, p),
        holds(Bexpr::Or(ys), env, p) == holds(Bexpr::Or(xs), env, p),
{
    lemma_pointwise_equiv(xs, ys, env, p);
}

/// Conjunctions (and disjunctions) of elementwise equivalent sequences are equivalent.
proof fn lemma_pointwise_equiv(xs: Seq<Bexpr<Aexpr>>, ys: Seq<Bexpr<Aexpr>>, env: spec_fn(FuncIO) -> int, p: nat)
    requires
        xs.len() == ys.len(),
        forall|i: int| #![trigger ys[i]] 0 <= i < xs.len() ==> holds(ys[i], env, p) == holds(xs[i], env, p),
    ensures
        holds(Bexpr::And(ys), env, p) == holds(Bexpr::And(xs), env, p),
        holds(Bexpr::Or(ys), env, p) == holds(Bexpr::Or(xs), env, p),
{
    lemma_unfold_list(xs, env, p);
    lemma_unfold_list(ys, env, p);
    if holds(Bexpr::And(xs), env, p) {
        assert forall|i: int| #![trigger ys[i]] 0 <= i < ys.len() implies holds(ys[i], env, p) by {
            assert(holds(xs[i], env, p));
        }
    } else {
        let i = choose|i: int| #![trigger xs[i]] 0 <= i < xs.len() && !holds(xs[i], env, p);
        assert(!holds(ys[i], env, p));
    }
    if holds(Bexpr::Or(xs), env, p) {
        let i = choose|i: int| #![trigger xs[i]] 0 <= i < xs.len() && holds(xs[i], env, p);
        assert(holds(ys[i], env, p));
    } else {
        assert forall|i: int| #![trigger ys[i]] 0 <= i < ys.len() implies !holds(ys[i], env, p) by {
            assert(!holds(xs[i], env, p));
        }
    }
}

/// A sequence of literals holds elementwise as the literal `True` does.
proof fn lemma_literals_equiv(ys: Seq<Bexpr<Aexpr>>, env: spec_fn(FuncIO) -> int, p: nat)
    requires
        all_literals(ys),
    ensures
        holds(Bexpr::And(ys), env, p) == (forall|i: int| #![trigger ys[i]] 0 <= i < ys.len() ==> ys[i] is True),
        holds(Bexpr::Or(ys), env, p) == (exists|i: int| #![trigger ys[i]] 0 <= i < ys.len() && ys[i] is True),
{
    lemma_unfold_list(ys, env, p);
    assert forall|i: int| #![trigger ys[i]] 0 <= i < ys.len() implies holds(ys[i], env, p) == (ys[i] is True) by {
        assert(bconst(ys[i]) is Some);
    }
    if forall|i: int| #![trigger ys[i]] 0 <= i < ys.len() ==> ys[i] is True {
        assert forall|i: int| #![trigger ys[i]] 0 <= i < ys.len() implies holds(ys[i], env, p) by {
            assert(ys[i] is True);
        }
    }
    if holds(Bexpr::And(ys), env, p) {
        assert forall|i: int| #![trigger ys[i]] 0 <= i < ys.len() implies ys[i] is True by {
            assert(holds(ys[i], env, p));
        }
    }
    if exists|i: int| #![trigger ys[i]] 0 <= i < ys.len() && ys[i] is True {
        let i = choose|i: int| #![trigger ys[i]] 0 <= i < ys.len() && ys[i] is True;
        assert(holds(ys[i], env, p));
    }
    if holds(Bexpr::Or(ys), env, p) {
        let i = choose|i: int| #![trigger ys[i]] 0 <= i < ys.len() && holds(ys[i], env, p);
        assert(ys[i] is True);
    }
}

/// Folding a prefix of a sequence keeps its length and the truth value of each element.
proof fn lemma_fold_prefix_sound(xs: Seq<Bexpr<Aexpr>>, p: nat, env: spec_fn(FuncIO) -> int)
    requires
        p > 0,
        forall|i: int| #![trigger xs[i]] 0 <= i < xs.len() ==> leaves_without(xs[i], p),
    ensures
        fold_prefix(xs, p).len() == xs.len(),
        forall|i: int| #![trigger fold_prefix(xs, p)[i]] 0 <= i < xs.len() ==> holds(fold_prefix(xs, p)[i], env, p) == holds(xs[i], env, p),
    decreases xs, 1int,
{
    if xs.len() > 0 {
        assert(leaves_without(xs[0], p));
        lemma_bfold_sound(xs[0], p, env);
        let y = bfold(xs[0], p);
        let rest = xs.drop_first();
        let ys = fold_prefix(xs, p);
        if bconst(y) is Some {
            assert(decreases_to!(xs => xs.subrange(1, xs.len() as int)));
            assert(rest == xs.subrange(1, xs.len() as int));
            assert forall|i: int| #![trigger rest[i]] 0 <= i < rest.len() implies leaves_without(rest[i], p) by {
                assert(rest[i] == xs[i + 1]);
            }
            lemma_fold_prefix_sound(rest, p, env);
            assert(ys == seq![y] + fold_prefix(rest, p));
            assert forall|i: int| #![trigger ys[i]] 0 <= i < xs.len() implies holds(ys[i], env, p) == holds(xs[i], env, p) by {
                if i > 0 {
                    assert(ys[i] == fold_prefix(rest, p)[i - 1]);
                    assert(rest[i - 1] == xs[i]);
                }
            }
        } else {
            assert(ys == seq![y] + rest);
            assert forall|i: int| #![trigger ys[i]] 0 <= i < xs.len() implies holds(ys[i], env, p) == holds(xs[i], env, p) by {
                if i > 0 {
                    assert(ys[i] == rest[i - 1]);
                }
            }
        }
    }
}

/// Folding the constants of a boolean expression does not change its truth value, whatever
/// the values of the variables, when no constant of its comparisons equals `p`. Folding
/// reduces constants with [`crate::felt::Felt::rem_assign`], which reduces only values greater
/// than the modulus: a constant equal to `p` stays as it is, and comparing it as it is may
/// differ from comparing its reduction, zero.
pub proof fn lemma_bfold_sound(e: Bexpr<Aexpr>, p: nat, env: spec_fn(FuncIO) -> int)
    requires
        p > 0,
        leaves_without(e, p),
    ensures
        holds(bfold(e, p), env, p) == holds(e, env, p),
    decreases e, 0int,
{
    match e {
        Bexpr::True => {},
        Bexpr::False => {},
        Bexpr::Cmp(op, l, r) => {
            lemma_fold_sound(l, p, env);
            lemma_fold_sound(r, p, env);
            lemma_fold_reduces(l, p);
            lemma_fold_reduces(r, p);
            let a = fold(l, p);
            let b = fold(r, p);
            if a is Constant && b is Constant {
                let ca = a->Constant_0 as int;
                let cb = b->Constant_0 as int;
                vstd::arithmetic::div_mod::lemma_small_mod(ca as nat, p);
                vstd::arithmetic::div_mod::lemma_small_mod(cb as nat, p);
                assert(eval(a, env) == ca);
                assert(eval(b, env) == cb);
            }
        },
        Bexpr::And(xs) => {
            assert forall|i: int| #![trigger xs[i]] 0 <= i < xs.len() implies leaves_without(xs[i], p) by {}
            lemma_fold_prefix_sound(xs, p, env);
            let ys = fold_prefix(xs, p);
            lemma_pointwise_equiv(xs, ys, env, p);
            if all_literals(ys) {
                lemma_literals_equiv(ys, env, p);
            }
        },
        Bexpr::Or(xs) => {
            assert forall|i: int| #![trigger xs[i]] 0 <= i < xs.len() implies leaves_without(xs[i], p) by {}
            lemma_fold_prefix_sound(xs, p, env);
            let ys = fold_prefix(xs, p);
            lemma_pointwise_equiv(xs, ys, env, p);
            if all_literals(ys) {
                lemma_literals_equiv(ys, env, p);
            }
        },
        Bexpr::Not(x) => {
            lemma_bfold_sound(*x, p, env);
        },
    }
}

/// The rewrite of a comparison by [`canonical_constraint`], or the comparison itself.
pub open spec fn canon_cmp(op: CmpOp, l: Aexpr, r: Aexpr) -> Bexpr<Aexpr> {
    match canonical_constraint(op, l, r) {
        Some((o, a, b)) => Bexpr::Cmp(o, a, b),
        None => Bexpr::Cmp(op, l, r),
    }
}

/// The result of canonicalizing a boolean expression: comparisons are rewritten by
/// [`canonical_constraint`]; the negation of a literal becomes the opposite literal and the
/// negation of a comparison becomes the comparison with the negated operator, rewritten in
/// turn. Conjunctions and disjunctions canonicalize their elements.
pub open spec fn bcanon(e: Bexpr<Aexpr>) -> Bexpr<Aexpr>
    decreases e,
{
    match e {
        Bexpr::True => Bexpr::True,
        Bexpr::False => Bexpr::False,
        Bexpr::Cmp(op, l, r) => canon_cmp(op, l, r),
        Bexpr::And(xs) => Bexpr::And(
            Seq::new(xs.len(), |i: int| if 0 <= i < xs.len() { bcanon(xs[i]) } else { Bexpr::True }),
        ),
        Bexpr::Or(xs) => Bexpr::Or(
            Seq::new(xs.len(), |i: int| if 0 <= i < xs.len() { bcanon(xs[i]) } else { Bexpr::True }),
        ),
        Bexpr::Not(x) => {
            let y = bcanon(*x);
            match y {
                Bexpr::True => Bexpr::False,
                Bexpr::False => Bexpr::True,
                Bexpr::Cmp(op, l, r) => canon_cmp(negated_op(op), l, r),
                _ => Bexpr::Not(Box::new(y)),
            }
        },
    }
}

/// The expression is in canonical form: no negation stands directly over a literal, a
/// comparison or, inside, anywhere else in the expression.
pub open spec fn canonical_form(e: Bexpr<Aexpr>) -> bool
    decreases e,
{
    match e {
        Bexpr::True => true,
        Bexpr::False => true,
        Bexpr::Cmp(_, _, _) => true,
        Bexpr::And(xs) => forall|i: int| 0 <= i < xs.len() ==> canonical_form(#[trigger] xs[i]),
        Bexpr::Or(xs) => forall|i: int| 0 <= i < xs.len() ==> canonical_form(#[trigger] xs[i]),
        Bexpr::Not(x) => !(*x is True) && !(*x is False) && !(*x is Cmp) && canonical_form(*x),
    }
}

/// A canonicalized expression is in canonical form: every negation of a literal or of a
/// comparison is gone.
pub proof fn law_bcanon_canonical_form(e: Bexpr<Aexpr>)
    ensures
        canonical_form(bcanon(e)),
    decreases e,
{
    match e {
        Bexpr::And(xs) => {
            assert forall|i: int| 0 <= i < xs.len() implies canonical_form(#[trigger] bcanon(e)->And_0[i]) by {
                assert(decreases_to!(e => xs));
                law_bcanon_canonical_form(xs[i]);
            }
        },
        Bexpr::Or(xs) => {
            assert forall|i: int| 0 <= i < xs.len() implies canonical_form(#[trigger] bcanon(e)->Or_0[i]) by {
                assert(decreases_to!(e => xs));
                law_bcanon_canonical_form(xs[i]);
            }
        },
        Bexpr::Not(x) => {
            law_bcanon_canonical_form(*x);
        },
        _ => {},
    }
}

/// The negation of a comparison canonicalizes as the comparison with the negated operator
/// does, taken once the comparison itself is canonical: `!(a < b)` becomes what `a >= b`
/// becomes, and so on. No negation is left.
pub proof fn law_bcanon_negated_comparison(op: CmpOp, l: Aexpr, r: Aexpr)
    ensures
        bcanon(Bexpr::Cmp(op, l, r)) is Cmp,
        bcanon(Bexpr::Cmp(op, l, r)) matches Bexpr::Cmp(o, a, b) && bcanon(Bexpr::Not(Box::new(Bexpr::Cmp(op, l, r))))
            == bcanon(Bexpr::Cmp(negated_op(o), a, b)),
        canonical_constraint(op, l, r) is None ==> bcanon(Bexpr::Not(Box::new(Bexpr::Cmp(op, l, r))))
            == bcanon(Bexpr::Cmp(negated_op(op), l, r)),
        op != CmpOp::Eq ==> bcanon(Bexpr::Not(Box::new(Bexpr::Cmp(op, l, r)))) == bcanon(Bexpr::Cmp(negated_op(op), l, r)),
        bcanon(Bexpr::Not(Box::new(Bexpr::Cmp(op, l, r)))) is Cmp,
{
    let c = Bexpr::Cmp(op, l, r);
    assert(bcanon(c) == canon_cmp(op, l, r));
}

proof fn lemma_canon_cmp_sound(op: CmpOp, l: Aexpr, r: Aexpr, p: nat, env: spec_fn(FuncIO) -> int)
    requires
        p > 0,
    ensures
        holds(canon_cmp(op, l, r), env, p) == holds(Bexpr::Cmp(op, l, r), env, p),
{
    if canonical_constraint(op, l, r) is Some {
        lemma_canonical_constraint_sound(op, l, r, p, env);
    }
}

/// Canonicalizing a boolean expression does not change its truth value, whatever the values
/// of the variables.
pub proof fn lemma_bcanon_sound(e: Bexpr<Aexpr>, p: nat, env: spec_fn(FuncIO) -> int)
    requires
        p > 0,
    ensures
        holds(bcanon(e), env, p) == holds(e, env, p),
    decreases e,
{
    match e {
        Bexpr::Cmp(op, l, r) => {
            lemma_canon_cmp_sound(op, l, r, p, env);
            assert(holds(bcanon(e), env, p) == holds(e, env, p));
        },
        Bexpr::And(xs) => {
            assert forall|i: int| 0 <= i < xs.len() implies holds(#[trigger] bcanon(e)->And_0[i], env, p) == holds(xs[i], env, p) by {
                assert(decreases_to!(e => xs));
                lemma_bcanon_sound(xs[i], p, env);
            }
            lemma_pointwise_equiv(xs, bcanon(e)->And_0, env, p);
        },
        Bexpr::Or(xs) => {
            assert forall|i: int| 0 <= i < xs.len() implies holds(#[trigger] bcanon(e)->Or_0[i], env, p) == holds(xs[i], env, p) by {
                assert(decreases_to!(e => xs));
                lemma_bcanon_sound(xs[i], p, env);
            }
            lemma_pointwise_equiv(xs, bcanon(e)->Or_0, env, p);
        },
        Bexpr::Not(x) => {
            lemma_bcanon_sound(*x, p, env);
            let y = bcanon(*x);
            if let Bexpr::Cmp(op, l, r) = y {
                lemma_canon_cmp_sound(negated_op(op), l, r, p, env);
                assert(holds(Bexpr::Cmp(negated_op(op), l, r), env, p) == !holds(y, env, p));
            }
            assert(holds(bcanon(e), env, p) == holds(e, env, p));
        },
        _ => {},
    }
}

/// Splits [`fold_prefix`] after `k` elements that all fold into literals.
proof fn lemma_fold_prefix_split(vs: Seq<Bexpr<Aexpr>>, pre: Seq<Bexpr<Aexpr>>, p: nat)
    requires
        pre.len() <= vs.len(),
        forall|j: int| #![trigger pre[j]] 0 <= j < pre.len() ==> pre[j] == bfold(vs[j], p) && bconst(pre[j]) is Some,
    ensures
        fold_prefix(vs, p) =~= pre + fold_prefix(vs.subrange(pre.len() as int, vs.len() as int), p),
    decreases pre.len(),
{
    if pre.len() == 0 {
        assert(vs.subrange(0, vs.len() as int) =~= vs);
        assert(pre + fold_prefix(vs, p) =~= fold_prefix(vs, p));
    } else {
        let rest = vs.drop_first();
        let pre2 = pre.drop_first();
        assert forall|j: int| #![trigger pre2[j]] 0 <= j < pre2.len() implies pre2[j] == bfold(rest[j], p) && bconst(pre2[j]) is Some by {
            assert(pre2[j] == pre[j + 1]);
            assert(rest[j] == vs[j + 1]);
        }
        lemma_fold_prefix_split(rest, pre2, p);
        assert(rest.subrange(pre2.len() as int, rest.len() as int) =~= vs.subrange(pre.len() as int, vs.len() as int));
        assert(pre[0] == bfold(vs[0], p));
        assert(fold_prefix(vs, p) == seq![bfold(vs[0], p)] + fold_prefix(rest, p));
        assert(pre =~= seq![pre[0]] + pre2);
    }
}

/// Truth value of `x op y` on the values of two felts.
pub fn felt_op_holds(op: CmpOp, x: &Felt, y: &Felt) -> (r: bool)
    ensures
        r == op_holds(op, x@ as int, y@ as int),
{
    match op {
        CmpOp::Eq => x.equals(y),
        CmpOp::Lt => x.lt(y),
        CmpOp::Le => x.le(y),
        CmpOp::Gt => y.lt(x),
        CmpOp::Ge => y.le(x),
        CmpOp::Ne => !x.equals(y),
    }
}

/// Whether every expression of the list is the literal `True`.
fn all_true(ys: &Vec<IRBexpr<IRAexpr>>) -> (r: bool)
    ensures
        r == (forall|i: int| #![trigger views(ys@)[i]] 0 <= i < ys@.len() ==> views(ys@)[i] is True),
{
    let mut i: usize = 0;
    while i < ys.len()
        invariant
            i <= ys@.len(),
            forall|j: int| #![trigger views(ys@)[j]] 0 <= j < i ==> views(ys@)[j] is True,
        decreases ys@.len() - i,
    {
        let t = ys[i].is_true();
        assert(views(ys@)[i as int] == ys@[i as int]@);
        if !t {
            return false;
        }
        i = i + 1;
    }
    true
}

/// Whether some expression of the list is the literal `True`.
fn any_true(ys: &Vec<IRBexpr<IRAexpr>>) -> (r: bool)
    ensures
        r == (exists|i: int| #![trigger views(ys@)[i]] 0 <= i < ys@.len() && views(ys@)[i] is True),
{
    let mut i: usize = 0;
    while i < ys.len()
        invariant
            i <= ys@.len(),
            forall|j: int| #![trigger views(ys@)[j]] 0 <= j < i ==> !(views(ys@)[j] is True),
        decreases ys@.len() - i,
    {
        let t = ys[i].is_true();
        assert(views(ys@)[i as int] == ys@[i as int]@);
        if t {
            return true;
        }
        i = i + 1;
    }
    false
}

impl IRBexpr<IRAexpr> {
    /// The expression with its constants folded in the field of order `prime`, as [`bfold`]
    /// says.
    pub fn folded(self, prime: &Felt) -> (r: IRBexpr<IRAexpr>)
        requires
            prime@ > 0,
        ensures
            r@ == bfold(self@, prime@),
        decreases self,
    {
        let ghost p = prime@;
        match self {
            IRBexpr::True => IRBexpr::True,
            IRBexpr::False => IRBexpr::False,
            IRBexpr::Cmp(op, l, r) => {
                let a = l.folded(prime);
                let b = r.folded(prime);
                match (a, b) {
                    (IRAexpr::Constant(x), IRAexpr::Constant(y)) => {
                        IRBexpr::literal(felt_op_holds(op, &x, &y))
                    },
                    (a, b) => {
                        proof {
                            assert(!(a@ is Constant && b@ is Constant));
                        }
                        IRBexpr::Cmp(op, a, b)
                    },
                }
            },
            IRBexpr::And(xs) => {
                proof {
                    lemma_list_view(xs);
                }
                let (ys, lits) = Self::fold_list(xs, prime);
                if lits {
                    IRBexpr::literal(all_true(&ys))
                } else {
                    proof {
                        lemma_list_view(ys);
                    }
                    IRBexpr::And(ys)
                }
            },
            IRBexpr::Or(xs) => {
                proof {
                    lemma_list_view(xs);
                }
                let (ys, lits) = Self::fold_list(xs, prime);
                if lits {
                    IRBexpr::literal(any_true(&ys))
                } else {
                    proof {
                        lemma_list_view(ys);
                    }
                    IRBexpr::Or(ys)
                }
            },
            IRBexpr::Not(x) => {
                let y = (*x).folded(prime);
                match y.const_value() {
                    Some(b) => IRBexpr::literal(!b),
                    None => IRBexpr::Not(Box::new(y)),
                }
            },
        }
    }

    /// Folds the elements of a list as [`fold_prefix`] says, and tells whether they all
    /// became literals.
    fn fold_list(xs: Vec<IRBexpr<IRAexpr>>, prime: &Felt) -> (r: (Vec<IRBexpr<IRAexpr>>, bool))
        requires
            prime@ > 0,
        ensures
            views(r.0@) == fold_prefix(views(xs@), prime@),
            r.1 == all_literals(views(r.0@)),
        decreases xs,
    {
        let ghost p = prime@;
        let ghost orig = xs;
        let ghost vs = views(xs@);
        let mut stack = crate::utils::reverse_vec(xs);
        let mut out: Vec<IRBexpr<IRAexpr>> = Vec::new();
        let mut all = true;
        while stack.len() > 0
            invariant
                orig == xs,
                vs == views(orig@),
                prime@ == p,
                p > 0,
                out@.len() + stack@.len() == orig@.len(),
                forall|k: int| 0 <= k < stack@.len() ==> stack@[k] == orig@[orig@.len() - 1 - k],
                all ==> forall|j: int| #![trigger views(out@)[j]] 0 <= j < out@.len() ==> views(out@)[j] == bfold(vs[j], p)
                    && bconst(views(out@)[j]) is Some,
                !all ==> fold_prefix(vs, p) == views(out@) + vs.subrange(out@.len() as int, vs.len() as int),
                !all ==> !all_literals(views(out@)),
            decreases stack@.len(),
        {
            let x = stack.pop().unwrap();
            let ghost k = out@.len() as int;
            let ghost old_out = views(out@);
            proof {
                assert(x == orig@[k]);
                assert(vs[k] == x@);
                assert(decreases_to!(orig => orig@));
                assert(decreases_to!(orig@ => orig@[k]));
            }
            if all {
                let y = x.folded(prime);
                let c = y.const_value();
                out.push(y);
                proof {
                    assert(views(out@) =~= old_out.push(y@));
                    if c is None {
                        lemma_fold_prefix_split(vs, old_out, p);
                        let sub = vs.subrange(k, vs.len() as int);
                        assert(sub[0] == vs[k]);
                        assert(fold_prefix(sub, p) == seq![bfold(sub[0], p)] + sub.drop_first());
                        assert(sub.drop_first() =~= vs.subrange(k + 1, vs.len() as int));
                        assert(fold_prefix(vs, p) =~= views(out@) + vs.subrange(k + 1, vs.len() as int));
                        assert(!(bconst(views(out@)[k]) is Some));
                    }
                }
                if c.is_none() {
                    all = false;
                }
            } else {
                out.push(x);
                proof {
                    assert(views(out@) =~= old_out.push(x@));
                    assert(vs.subrange(k, vs.len() as int) =~= seq![vs[k]] + vs.subrange(k + 1, vs.len() as int));
                    assert(fold_prefix(vs, p) =~= views(out@) + vs.subrange(k + 1, vs.len() as int));
                    let w = choose|j: int| #![trigger old_out[j]] 0 <= j < old_out.len() && !(bconst(old_out[j]) is Some);
                    assert(views(out@)[w] == old_out[w]);
                }
            }
        }
        proof {
            if all {
                lemma_fold_prefix_split(vs, views(out@), p);
                assert(vs.subrange(vs.len() as int, vs.len() as int) =~= Seq::<Bexpr<Aexpr>>::empty());
                assert(fold_prefix(vs, p) =~= views(out@));
            } else {
                assert(vs.subrange(vs.len() as int, vs.len() as int) =~= Seq::<Bexpr<Aexpr>>::empty());
                assert(fold_prefix(vs, p) =~= views(out@));
            }
        }
        (out, all)
    }

    /// Folds the expression if the values are constant, in the field of order `prime`.
    ///
    /// When no constant of a comparison equals `prime`, the folded expression has the same
    /// truth value as the original one, whatever the values of the variables.
    pub fn constant_fold(&mut self, prime: &Felt)
        requires
            prime@ > 0,
        ensures
            final(self)@ == bfold(old(self)@, prime@),
            leaves_without(old(self)@, prime@) ==> forall|env: spec_fn(FuncIO) -> int|
                #![trigger holds(final(self)@, env, prime@)]
                holds(final(self)@, env, prime@) == holds(old(self)@, env, prime@),
    {
        let mut tmp = IRBexpr::True;
        std::mem::swap(&mut tmp, self);
        let r = tmp.folded(prime);
        *self = r;
        proof {
            if leaves_without(tmp@, prime@) {
                assert forall|env: spec_fn(FuncIO) -> int|
                    #![trigger holds(self@, env, prime@)]
                    holds(self@, env, prime@) == holds(tmp@, env, prime@) by {
                    lemma_bfold_sound(tmp@, prime@, env);
                }
            }
        }
    }
}

impl IRBexpr<IRAexpr> {
    /// The comparison `l op r`, rewritten by [`canonicalize_constraint`] when a pattern
    /// matches.
    fn canonical_cmp(op: CmpOp, l: IRAexpr, r: IRAexpr) -> (res: IRBexpr<IRAexpr>)
        ensures
            res@ == canon_cmp(op, l@, r@),
    {
        match canonicalize_constraint(op, &l, &r) {
            Some((o, a, b)) => IRBexpr::Cmp(o, a, b),
            None => IRBexpr::Cmp(op, l, r),
        }
    }

    /// The expression canonicalized as [`bcanon`] says.
    pub fn canonicalized(self) -> (r: IRBexpr<IRAexpr>)
        ensures
            r@ == bcanon(self@),
        decreases self,
    {
        match self {
            IRBexpr::True => IRBexpr::True,
            IRBexpr::False => IRBexpr::False,
            IRBexpr::Cmp(op, l, r) => Self::canonical_cmp(op, l, r),
            IRBexpr::And(xs) => {
                proof {
                    lemma_list_view(xs);
                }
                let ys = Self::canon_list(xs);
                proof {
                    lemma_list_view(ys);
                    assert(views(ys@) =~= bcanon(self@)->And_0);
                }
                IRBexpr::And(ys)
            },
            IRBexpr::Or(xs) => {
                proof {
                    lemma_list_view(xs);
                }
                let ys = Self::canon_list(xs);
                proof {
                    lemma_list_view(ys);
                    assert(views(ys@) =~= bcanon(self@)->Or_0);
                }
                IRBexpr::Or(ys)
            },
            IRBexpr::Not(x) => {
                let y = (*x).canonicalized();
                match y {
                    IRBexpr::True => IRBexpr::False,
                    IRBexpr::False => IRBexpr::True,
                    IRBexpr::Cmp(op, l, r) => Self::canonical_cmp(op.negate(), l, r),
                    other => {
                        proof {
                            assert(!(other@ is True) && !(other@ is False) && !(other@ is Cmp));
                        }
                        IRBexpr::Not(Box::new(other))
                    },
                }
            },
        }
    }

    /// Canonicalizes each element of a list.
    fn canon_list(xs: Vec<IRBexpr<IRAexpr>>) -> (r: Vec<IRBexpr<IRAexpr>>)
        ensures
            r@.len() == xs@.len(),
            forall|i: int| #![trigger views(r@)[i]] 0 <= i < xs@.len() ==> views(r@)[i] == bcanon(views(xs@)[i]),
        decreases xs,
    {
        let ghost orig = xs;
        let mut stack = crate::utils::reverse_vec(xs);
        let mut out: Vec<IRBexpr<IRAexpr>> = Vec::new();
        while stack.len() > 0
            invariant
                orig == xs,
                out@.len() + stack@.len() == orig@.len(),
                forall|k: int| 0 <= k < stack@.len() ==> stack@[k] == orig@[orig@.len() - 1 - k],
                forall|i: int| #![trigger views(out@)[i]] 0 <= i < out@.len() ==> views(out@)[i] == bcanon(views(orig@)[i]),
            decreases stack@.len(),
        {
            let x = stack.pop().unwrap();
            let ghost k = out@.len() as int;
            let ghost old_out = views(out@);
            proof {
                assert(x == orig@[k]);
                assert(decreases_to!(orig => orig@));
                assert(decreases_to!(orig@ => orig@[k]));
            }
            let y = x.canonicalized();
            out.push(y);
            proof {
                assert(views(out@) =~= old_out.push(y@));
                assert(views(orig@)[k] == x@);
            }
        }
        out
    }

    /// Matches the expression against a series of known patterns and applies rewrites if able
    /// to. The rewritten expression has the same truth value as the original one, whatever the
    /// values of the variables.
    pub fn canonicalize(&mut self)
        ensures
            final(self)@ == bcanon(old(self)@),
            forall|env: spec_fn(FuncIO) -> int, p: nat|
                #![trigger holds(final(self)@, env, p)]
                p > 0 ==> holds(final(self)@, env, p) == holds(old(self)@, env, p),
    {
        let mut tmp = IRBexpr::True;
        std::mem::swap(&mut tmp, self);
        let r = tmp.canonicalized();
        *self = r;
        proof {
            assert forall|env: spec_fn(FuncIO) -> int, p: nat|
                #![trigger holds(self@, env, p)]
                p > 0 implies holds(self@, env, p) == holds(tmp@, env, p) by {
                lemma_bcanon_sound(tmp@, p, env);
            }
        }
    }
}

} // verus!

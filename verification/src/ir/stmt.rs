//! Statements of the circuit's logic.
use vstd::prelude::*;
use vstd::std_specs::cmp::PartialEqSpec;
use crate::func_io::FuncIO;
use crate::ir::bexpr::{IRBexpr, bexpr_eq, mapped, mapped_or_kept, has_leaf, leaf_ok, leaves_ok, fails_first, composed, law_mapped_compose, leaf_ok_ref, leaves_ok_ref, fails_first_ref};
use crate::ir::compare::CmpOp;
use crate::utils::reverse_vec;
use crate::felt::Felt;
use crate::ir::aexpr::{IRAexpr, fold};
use crate::ir::canon::{canonical_constraint, canonicalize_constraint};
use crate::ir::compare::op_holds;
use crate::ir::semantics::{bfold, bcanon};

verus! {

/// A call to another module.
#[derive(Debug)]
pub struct Call<T> {
    /// Name of the called module.
    pub callee: String,
    /// Arguments of the call.
    pub inputs: Vec<T>,
    /// Variables that receive the outputs of the call.
    pub outputs: Vec<FuncIO>,
}

/// A constraint `lhs op rhs` between two expressions.
#[derive(Debug)]
pub struct Constraint<T> {
    /// The comparison.
    pub op: CmpOp,
    /// Left-hand side.
    pub lhs: T,
    /// Right-hand side.
    pub rhs: T,
}

/// A text comment.
#[derive(Debug)]
pub struct Comment(pub String);

/// A variable that the backend must assume deterministic.
#[derive(Debug)]
pub struct AssumeDeterministic(pub FuncIO);

/// An assertion that a boolean expression holds.
#[derive(Debug)]
pub struct Assert<T>(pub IRBexpr<T>);

/// A sequence of statements.
#[derive(Debug)]
pub struct StmtSeq<T>(pub Vec<IRStmt<T>>);

/// IR for operations that occur in the main circuit.
#[derive(Debug)]
pub enum IRStmt<T> {
    /// A call to another module.
    ConstraintCall(Call<T>),
    /// A constraint between two expressions.
    Constraint(Constraint<T>),
    /// A text comment.
    Comment(Comment),
    /// Indicates that a [`FuncIO`] must be assumed deterministic by the backend.
    AssumeDeterministic(AssumeDeterministic),
    /// A constraint that a [`IRBexpr`] must be true.
    Assert(Assert<T>),
    /// A sequence of statements.
    Sequence(StmtSeq<T>),
}

/// The statements that are not sequences, in the order in which they occur when the nested
/// sequences of `s` are spliced into one.
pub open spec fn flatten<T>(s: IRStmt<T>) -> Seq<IRStmt<T>>
    decreases s, 0int,
{
    match s {
        IRStmt::Sequence(q) => {
            proof {
                assert(decreases_to!(q => q.0));
                assert(decreases_to!(q.0 => q.0@));
            }
            flatten_all(q.0@)
        },
        _ => seq![s],
    }
}

/// The concatenation of the flattenings of the statements of `xs`.
pub open spec fn flatten_all<T>(xs: Seq<IRStmt<T>>) -> Seq<IRStmt<T>>
    decreases xs, 1int,
{
    if xs.len() == 0 {
        Seq::empty()
    } else {
        proof {
            assert(decreases_to!(xs => xs.subrange(0, xs.len() - 1)));
        }
        flatten_all(xs.drop_last()) + flatten(xs.last())
    }
}

/// The flattening of a statement holds no sequence.
pub proof fn lemma_flatten_leaves<T>(s: IRStmt<T>)
    ensures
        forall|i: int| #![trigger flatten(s)[i]] 0 <= i < flatten(s).len() ==> !(flatten(s)[i] is Sequence),
    decreases s, 0int,
{
    if let IRStmt::Sequence(q) = s {
        assert(decreases_to!(s => q.0@)) by {
            assert(decreases_to!(q => q.0));
            assert(decreases_to!(q.0 => q.0@));
        }
        lemma_flatten_all_leaves(q.0@);
    }
}

/// The flattening of a list of statements holds no sequence.
pub proof fn lemma_flatten_all_leaves<T>(xs: Seq<IRStmt<T>>)
    ensures
        forall|i: int| #![trigger flatten_all(xs)[i]] 0 <= i < flatten_all(xs).len() ==> !(flatten_all(xs)[i] is Sequence),
    decreases xs, 1int,
{
    if xs.len() > 0 {
        assert(decreases_to!(xs => xs.subrange(0, xs.len() - 1)));
        lemma_flatten_all_leaves(xs.drop_last());
        lemma_flatten_leaves(xs.last());
        let a = flatten_all(xs.drop_last());
        let b = flatten(xs.last());
        assert forall|i: int| #![trigger flatten_all(xs)[i]] 0 <= i < flatten_all(xs).len() implies !(flatten_all(xs)[i] is Sequence) by {
            if i < a.len() {
                assert(flatten_all(xs)[i] == a[i]);
            } else {
                assert(flatten_all(xs)[i] == b[i - a.len()]);
            }
        }
    }
}

/// Whether two statements that are not sequences are equal: the same kind of statement, with
/// equal expressions (compared by their `==`), names, texts and variables.
pub open spec fn leaf_eq<T: PartialEq>(a: IRStmt<T>, b: IRStmt<T>) -> bool {
    match (a, b) {
        (IRStmt::ConstraintCall(x), IRStmt::ConstraintCall(y)) => x.callee@ == y.callee@
            && x.inputs@.len() == y.inputs@.len() && (forall|i: int|
            #![trigger x.inputs@[i]]
            0 <= i < x.inputs@.len() ==> x.inputs@[i].eq_spec(&y.inputs@[i])) && x.outputs@
            == y.outputs@,
        (IRStmt::Constraint(x), IRStmt::Constraint(y)) => x.op == y.op && x.lhs.eq_spec(&y.lhs)
            && x.rhs.eq_spec(&y.rhs),
        (IRStmt::Comment(x), IRStmt::Comment(y)) => x.0@ == y.0@,
        (IRStmt::AssumeDeterministic(x), IRStmt::AssumeDeterministic(y)) => x.0 == y.0,
        (IRStmt::Assert(x), IRStmt::Assert(y)) => bexpr_eq(x.0, y.0),
        _ => false,
    }
}

/// Equality of statements: the flattened sequences of statements have the same length and
/// are equal element by element, however the statements are nested in sequences.
pub open spec fn stmt_eq<T: PartialEq>(a: IRStmt<T>, b: IRStmt<T>) -> bool {
    let fa = flatten(a);
    let fb = flatten(b);
    fa.len() == fb.len() && forall|i: int| #![trigger fa[i]] 0 <= i < fa.len() ==> leaf_eq(fa[i], fb[i])
}

impl<T> IRStmt<T> {
    /// The constraint statement `lhs op rhs`.
    pub open spec fn constraint_spec(op: CmpOp, lhs: T, rhs: T) -> IRStmt<T> {
        IRStmt::Constraint(Constraint { op, lhs, rhs })
    }

    /// Creates a call to another module.
    pub fn call(callee: &str, inputs: Vec<T>, outputs: Vec<FuncIO>) -> (r: Self)
        ensures
            r matches IRStmt::ConstraintCall(c) && c.callee@ == callee@ && c.inputs@ == inputs@
                && c.outputs@ == outputs@,
    {
        IRStmt::ConstraintCall(Call::new(callee, inputs, outputs))
    }

    /// Creates a constraint between two expressions.
    pub fn constraint(op: CmpOp, lhs: T, rhs: T) -> (r: Self)
        ensures
            r == Self::constraint_spec(op, lhs, rhs),
    {
        IRStmt::Constraint(Constraint::new(op, lhs, rhs))
    }

    /// Creates a text comment.
    pub fn comment(s: &str) -> (r: Self)
        ensures
            r matches IRStmt::Comment(c) && c.0@ == s@,
    {
        IRStmt::Comment(Comment::new(s))
    }

    /// Indicates that the [`FuncIO`] must be assumed deterministic by the backend.
    pub fn assume_deterministic(f: FuncIO) -> (r: Self)
        ensures
            r == IRStmt::<T>::AssumeDeterministic(AssumeDeterministic(f)),
    {
        IRStmt::AssumeDeterministic(AssumeDeterministic::new(f))
    }

    /// Creates an assertion in the circuit.
    pub fn assertion(cond: IRBexpr<T>) -> (r: Self)
        ensures
            r == IRStmt::Assert(Assert(cond)),
    {
        IRStmt::Assert(Assert::new(cond))
    }

    /// Creates a statement that is a sequence of other statements.
    pub fn seq(stmts: Vec<IRStmt<T>>) -> (r: Self)
        ensures
            r matches IRStmt::Sequence(q) && q.0@ == stmts@,
    {
        IRStmt::Sequence(StmtSeq::new(stmts))
    }

    /// Creates an empty statement.
    pub fn empty() -> (r: Self)
        ensures
            r matches IRStmt::Sequence(q) && q.0@.len() == 0,
            flatten(r).len() == 0,
    {
        IRStmt::Sequence(StmtSeq::empty())
    }

    /// Returns true if the statement is an empty sequence.
    pub fn is_empty(&self) -> (r: bool)
        ensures
            r == (self matches IRStmt::Sequence(q) && q.0@.len() == 0),
    {
        match self {
            IRStmt::Sequence(s) => s.is_empty(),
            _ => false,
        }
    }

    /// Appends the statements of the flattening of `self` to `out`.
    fn flatten_into(self, out: &mut Vec<IRStmt<T>>)
        ensures
            final(out)@ == old(out)@ + flatten(self),
        decreases self,
    {
        match self {
            IRStmt::Sequence(q) => {
                let ghost xs = q.0@;
                let ghost orig = q.0;
                let ghost start = out@;
                proof {
                    assert(decreases_to!(self => q.0@)) by {
                        assert(decreases_to!(q => q.0));
                        assert(decreases_to!(q.0 => q.0@));
                    }
                }
                let total = q.0.len();
                let mut stack = reverse_vec(q.0);
                let mut n: usize = 0;
                while stack.len() > 0
                    invariant
                        xs == orig@,
                        xs.len() == total,
                        decreases_to!(self => xs),
                        n + stack@.len() == xs.len(),
                        forall|k: int| 0 <= k < stack@.len() ==> stack@[k] == xs[xs.len() - 1 - k],
                        out@ == start + flatten_all(xs.take(n as int)),
                    decreases stack@.len(),
                {
                    let x = stack.pop().unwrap();
                    proof {
                        assert(x == xs[n as int]);
                        assert(decreases_to!(xs => xs[n as int]));
                        assert(xs.take(n + 1).drop_last() =~= xs.take(n as int));
                        assert(xs.take(n + 1).last() == x);
                    }
                    x.flatten_into(out);
                    n = n + 1;
                    proof {
                        assert(out@ =~= start + flatten_all(xs.take(n as int)));
                    }
                }
                proof {
                    assert(xs.take(n as int) =~= xs);
                }
            },
            s => {
                out.push(s);
            },
        }
    }

    /// An iterator over the statements of the flattening of `self`: the statements that are
    /// not sequences, from left to right.
    pub fn into_iter(self) -> (r: IRStmtIter<T>)
        ensures
            r.remaining() == flatten(self),
    {
        let mut out: Vec<IRStmt<T>> = Vec::new();
        self.flatten_into(&mut out);
        proof {
            assert(out@ =~= flatten(self));
        }
        IRStmtIter { stack: reverse_vec(out) }
    }
}

/// Iterator over the statements of a flattened statement.
#[derive(Debug)]
pub struct IRStmtIter<T> {
    stack: Vec<IRStmt<T>>,
}

impl<T> IRStmtIter<T> {
    /// The statements that the iterator has yet to give, in order.
    pub closed spec fn remaining(&self) -> Seq<IRStmt<T>> {
        self.stack@.reverse()
    }

    /// The next statement, if any is left.
    pub fn next(&mut self) -> (r: Option<IRStmt<T>>)
        ensures
            old(self).remaining().len() == 0 ==> r is None && final(self).remaining().len() == 0,
            old(self).remaining().len() > 0 ==> r == Some(old(self).remaining()[0])
                && final(self).remaining() == old(self).remaining().drop_first(),
    {
        let r = self.stack.pop();
        proof {
            if old(self).stack@.len() > 0 {
                assert(self.stack@.reverse() =~= old(self).stack@.reverse().drop_first());
            }
        }
        r
    }
}

impl<T: PartialEq> IRStmt<T> {
    /// Appends references to the statements of the flattening of `self` to `out`.
    pub(crate) fn leaves<'a>(&'a self, out: &mut Vec<&'a IRStmt<T>>)
        ensures
            final(out)@.len() == old(out)@.len() + flatten(*self).len(),
            forall|i: int| 0 <= i < old(out)@.len() ==> final(out)@[i] == old(out)@[i],
            forall|j: int| #![trigger flatten(*self)[j]] 0 <= j < flatten(*self).len() ==> *final(out)@[old(out)@.len() + j] == flatten(*self)[j],
        decreases self,
    {
        match self {
            IRStmt::Sequence(q) => {
                let ghost xs = q.0@;
                let ghost start = out@;
                proof {
                    assert(decreases_to!(*self => q.0@)) by {
                        assert(decreases_to!(*q => q.0));
                        assert(decreases_to!(q.0 => q.0@));
                    }
                }
                let mut n: usize = 0;
                while n < q.0.len()
                    invariant
                        xs == q.0@,
                        decreases_to!(*self => xs),
                        n <= xs.len(),
                        out@.len() == start.len() + flatten_all(xs.take(n as int)).len(),
                        forall|i: int| 0 <= i < start.len() ==> out@[i] == start[i],
                        forall|j: int| #![trigger flatten_all(xs.take(n as int))[j]] 0 <= j < flatten_all(xs.take(n as int)).len() ==> *out@[start.len() + j] == flatten_all(xs.take(n as int))[j],
                    decreases xs.len() - n,
                {
                    let ghost before = out@;
                    let ghost prev = flatten_all(xs.take(n as int));
                    proof {
                        assert(decreases_to!(xs => xs[n as int]));
                        assert(xs.take(n + 1).drop_last() =~= xs.take(n as int));
                        assert(xs.take(n + 1).last() == xs[n as int]);
                    }
                    q.0[n].leaves(out);
                    n = n + 1;
                    proof {
                        let cur = flatten_all(xs.take(n as int));
                        let add = flatten(xs[n - 1]);
                        assert(cur == prev + add);
                        assert forall|j: int| #![trigger cur[j]] 0 <= j < cur.len() implies *out@[start.len() + j] == cur[j] by {
                            if j < prev.len() {
                                assert(out@[start.len() + j] == before[start.len() + j]);
                            } else {
                                assert(add[j - prev.len()] == cur[j]);
                            }
                        }
                    }
                }
                proof {
                    assert(xs.take(n as int) =~= xs);
                }
            },
            s => {
                out.push(s);
            },
        }
    }

    /// Equality of two statements that are not sequences, as [`leaf_eq`] says.
    fn leaf_equal(a: &IRStmt<T>, b: &IRStmt<T>) -> (r: bool)
        ensures
            T::obeys_eq_spec() ==> r == leaf_eq(*a, *b),
    {
        match (a, b) {
            (IRStmt::ConstraintCall(x), IRStmt::ConstraintCall(y)) => {
                x.callee == y.callee && eq_elementwise(&x.inputs, &y.inputs)
                    && eq_func_ios(&x.outputs, &y.outputs)
            },
            (IRStmt::Constraint(x), IRStmt::Constraint(y)) => x.op == y.op && x.lhs == y.lhs
                && x.rhs == y.rhs,
            (IRStmt::Comment(x), IRStmt::Comment(y)) => x.0 == y.0,
            (IRStmt::AssumeDeterministic(x), IRStmt::AssumeDeterministic(y)) => x.0 == y.0,
            (IRStmt::Assert(x), IRStmt::Assert(y)) => x.0.eq_expr(&y.0),
            _ => false,
        }
    }

    /// Equality defined by the sequence of statements regardless of how they are structured
    /// inside, as [`stmt_eq`] says. For example `Seq([a, Seq([b, c])])` equals
    /// `Seq([a, b, c])`, and `a` equals `Seq([a])`.
    pub fn eq_stmt(&self, other: &IRStmt<T>) -> (r: bool)
        ensures
            T::obeys_eq_spec() ==> r == stmt_eq(*self, *other),
    {
        let mut la: Vec<&IRStmt<T>> = Vec::new();
        let mut lb: Vec<&IRStmt<T>> = Vec::new();
        self.leaves(&mut la);
        other.leaves(&mut lb);
        let ghost fa = flatten(*self);
        let ghost fb = flatten(*other);
        if la.len() != lb.len() {
            return false;
        }
        let mut i: usize = 0;
        while i < la.len()
            invariant
                fa == flatten(*self),
                fb == flatten(*other),
                la@.len() == fa.len(),
                lb@.len() == fb.len(),
                la@.len() == lb@.len(),
                forall|j: int| #![trigger fa[j]] 0 <= j < fa.len() ==> *la@[j] == fa[j],
                forall|j: int| #![trigger fb[j]] 0 <= j < fb.len() ==> *lb@[j] == fb[j],
                i <= la@.len(),
                T::obeys_eq_spec() ==> forall|j: int| #![trigger fa[j]] 0 <= j < i ==> leaf_eq(fa[j], fb[j]),
            decreases la@.len() - i,
        {
            assert(*la@[i as int] == fa[i as int]);
            assert(*lb@[i as int] == fb[i as int]);
            let e = Self::leaf_equal(la[i], lb[i]);
            if !e {
                proof {
                    assert(T::obeys_eq_spec() ==> !leaf_eq(fa[i as int], fb[i as int]));
                }
                return false;
            }
            i = i + 1;
        }
        true
    }
}

/// Elementwise equality of two lists of expressions.
fn eq_elementwise<T: PartialEq>(xs: &Vec<T>, ys: &Vec<T>) -> (r: bool)
    ensures
        T::obeys_eq_spec() ==> r == (xs@.len() == ys@.len() && forall|i: int|
            #![trigger xs@[i]]
            0 <= i < xs@.len() ==> xs@[i].eq_spec(&ys@[i])),
{
    if xs.len() != ys.len() {
        return false;
    }
    let mut i: usize = 0;
    while i < xs.len()
        invariant
            xs@.len() == ys@.len(),
            i <= xs@.len(),
            T::obeys_eq_spec() ==> forall|j: int| #![trigger xs@[j]] 0 <= j < i ==> xs@[j].eq_spec(&ys@[j]),
        decreases xs@.len() - i,
    {
        if !(xs[i] == ys[i]) {
            return false;
        }
        i = i + 1;
    }
    true
}

/// Equality of two lists of variables.
fn eq_func_ios(xs: &Vec<FuncIO>, ys: &Vec<FuncIO>) -> (r: bool)
    ensures
        r == (xs@ == ys@),
{
    if xs.len() != ys.len() {
        return false;
    }
    let mut i: usize = 0;
    while i < xs.len()
        invariant
            xs@.len() == ys@.len(),
            i <= xs@.len(),
            forall|j: int| 0 <= j < i ==> xs@[j] == ys@[j],
        decreases xs@.len() - i,
    {
        if xs[i] != ys[i] {
            return false;
        }
        i = i + 1;
    }
    assert(xs@ =~= ys@);
    true
}

impl<T: PartialEq> PartialEq for IRStmt<T> {
    fn eq(&self, other: &IRStmt<T>) -> (r: bool) {
        self.eq_stmt(other)
    }
}

impl<T: PartialEq> vstd::std_specs::cmp::PartialEqSpecImpl for IRStmt<T> {
    open spec fn obeys_eq_spec() -> bool {
        T::obeys_eq_spec()
    }

    open spec fn eq_spec(&self, other: &IRStmt<T>) -> bool {
        stmt_eq(*self, *other)
    }
}

impl<T> Call<T> {
    /// Creates a call of `callee` with the given arguments and output variables.
    pub fn new(callee: &str, inputs: Vec<T>, outputs: Vec<FuncIO>) -> (r: Self)
        ensures
            r.callee@ == callee@,
            r.inputs@ == inputs@,
            r.outputs@ == outputs@,
    {
        Call { callee: callee.to_owned(), inputs, outputs }
    }
}

impl<T> Constraint<T> {
    /// Creates the constraint `lhs op rhs`.
    pub fn new(op: CmpOp, lhs: T, rhs: T) -> (r: Self)
        ensures
            r == (Constraint { op, lhs, rhs }),
    {
        Constraint { op, lhs, rhs }
    }
}

impl<T: PartialEq> PartialEq for Constraint<T> {
    fn eq(&self, other: &Constraint<T>) -> (r: bool) {
        self.op == other.op && self.lhs == other.lhs && self.rhs == other.rhs
    }
}

impl<T: PartialEq> vstd::std_specs::cmp::PartialEqSpecImpl for Constraint<T> {
    open spec fn obeys_eq_spec() -> bool {
        T::obeys_eq_spec()
    }

    /// Same comparison, and both sides equal by the `==` of the expressions.
    open spec fn eq_spec(&self, other: &Constraint<T>) -> bool {
        self.op == other.op && self.lhs.eq_spec(&other.lhs) && self.rhs.eq_spec(&other.rhs)
    }
}

impl Comment {
    /// Creates a comment with the given text.
    pub fn new(s: &str) -> (r: Self)
        ensures
            r.0@ == s@,
    {
        Comment(s.to_owned())
    }

    /// The text of the comment.
    pub fn value(&self) -> (r: &str)
        ensures
            r@ == self.0@,
    {
        self.0.as_str()
    }
}

impl AssumeDeterministic {
    /// Marks the variable as one to assume deterministic.
    pub fn new(f: FuncIO) -> (r: Self)
        ensures
            r.0 == f,
    {
        AssumeDeterministic(f)
    }

    /// The variable to assume deterministic.
    pub fn value(&self) -> (r: FuncIO)
        ensures
            r == self.0,
    {
        self.0
    }
}

impl<T> Assert<T> {
    /// Asserts the condition.
    pub fn new(cond: IRBexpr<T>) -> (r: Self)
        ensures
            r.0 == cond,
    {
        Assert(cond)
    }
}

impl<T> StmtSeq<T> {
    /// The sequence of the given statements.
    pub fn new(stmts: Vec<IRStmt<T>>) -> (r: Self)
        ensures
            r.0@ == stmts@,
    {
        StmtSeq(stmts)
    }

    /// The empty sequence.
    pub fn empty() -> (r: Self)
        ensures
            r.0@.len() == 0,
    {
        StmtSeq(Vec::new())
    }

    /// Whether the sequence has no statement.
    pub fn is_empty(&self) -> (r: bool)
        ensures
            r == (self.0@.len() == 0),
    {
        self.0.len() == 0
    }

    /// The statements of the sequence.
    pub fn iter(&self) -> (r: &[IRStmt<T>])
        ensures
            r@ == self.0@,
    {
        self.0.as_slice()
    }
}

/// `r` has the shape of `s` and each expression of `r` is related by `rel` to the
/// expression of `s` at the same place; names, texts and variables are kept.
pub open spec fn stmt_mapped<T, O>(s: IRStmt<T>, r: IRStmt<O>, rel: spec_fn(T, O) -> bool) -> bool
    decreases s,
{
    match s {
        IRStmt::ConstraintCall(c) => r matches IRStmt::ConstraintCall(d) && call_mapped(c, d, rel),
        IRStmt::Constraint(c) => r matches IRStmt::Constraint(d) && d.op == c.op && rel(c.lhs, d.lhs)
            && rel(c.rhs, d.rhs),
        IRStmt::Comment(c) => r matches IRStmt::Comment(d) && d.0@ == c.0@,
        IRStmt::AssumeDeterministic(a) => r matches IRStmt::AssumeDeterministic(b) && b.0 == a.0,
        IRStmt::Assert(a) => r matches IRStmt::Assert(b) && mapped(a.0, b.0, rel),
        IRStmt::Sequence(q) => r matches IRStmt::Sequence(p) && p.0@.len() == q.0@.len() && forall|i: int|
            #![trigger q.0@[i]]
            0 <= i < q.0@.len() ==> stmt_mapped(q.0@[i], p.0@[i], rel),
    }
}

/// `d` calls what `c` calls, into the same variables, with arguments related by `rel` to
/// those of `c`.
pub open spec fn call_mapped<T, O>(c: Call<T>, d: Call<O>, rel: spec_fn(T, O) -> bool) -> bool {
    &&& d.callee@ == c.callee@
    &&& d.outputs@ == c.outputs@
    &&& d.inputs@.len() == c.inputs@.len()
    &&& forall|i: int| #![trigger c.inputs@[i]] 0 <= i < c.inputs@.len() ==> rel(c.inputs@[i], d.inputs@[i])
}

/// Like [`stmt_mapped`], where each expression of `r` is either the one of `s` at the same
/// place or related to it by `rel`.
pub open spec fn stmt_mapped_or_kept<T>(s: IRStmt<T>, r: IRStmt<T>, rel: spec_fn(T, T) -> bool) -> bool
    decreases s,
{
    match s {
        IRStmt::ConstraintCall(c) => r matches IRStmt::ConstraintCall(d) && d.callee@ == c.callee@
            && d.outputs@ == c.outputs@ && d.inputs@.len() == c.inputs@.len() && forall|i: int|
            #![trigger c.inputs@[i]]
            0 <= i < c.inputs@.len() ==> (d.inputs@[i] == c.inputs@[i] || rel(c.inputs@[i], d.inputs@[i])),
        IRStmt::Constraint(c) => r matches IRStmt::Constraint(d) && d.op == c.op && (d.lhs == c.lhs
            || rel(c.lhs, d.lhs)) && (d.rhs == c.rhs || rel(c.rhs, d.rhs)),
        IRStmt::Comment(c) => r matches IRStmt::Comment(d) && d.0@ == c.0@,
        IRStmt::AssumeDeterministic(a) => r matches IRStmt::AssumeDeterministic(b) && b.0 == a.0,
        IRStmt::Assert(a) => r matches IRStmt::Assert(b) && mapped_or_kept(a.0, b.0, rel),
        IRStmt::Sequence(q) => r matches IRStmt::Sequence(p) && p.0@.len() == q.0@.len() && forall|i: int|
            #![trigger q.0@[i]]
            0 <= i < q.0@.len() ==> stmt_mapped_or_kept(q.0@[i], p.0@[i], rel),
    }
}

/// Some expression of `s` satisfies `pred`.
pub open spec fn stmt_has_leaf<T>(s: IRStmt<T>, pred: spec_fn(T) -> bool) -> bool
    decreases s,
{
    match s {
        IRStmt::ConstraintCall(c) => exists|i: int| #![trigger c.inputs@[i]] 0 <= i < c.inputs@.len() && pred(c.inputs@[i]),
        IRStmt::Constraint(c) => pred(c.lhs) || pred(c.rhs),
        IRStmt::Comment(_) => false,
        IRStmt::AssumeDeterministic(_) => false,
        IRStmt::Assert(a) => has_leaf(a.0, pred),
        IRStmt::Sequence(q) => exists|i: int| #![trigger q.0@[i]] 0 <= i < q.0@.len() && stmt_has_leaf(q.0@[i], pred),
    }
}

/// Mapping a statement twice is mapping it once by the composed relation (see [`composed`]).
pub proof fn law_stmt_mapped_compose<T, U, V>(s: IRStmt<T>, m: IRStmt<U>, r: IRStmt<V>, f: spec_fn(T, U) -> bool, g: spec_fn(U, V) -> bool)
    requires
        stmt_mapped(s, m, f),
        stmt_mapped(m, r, g),
    ensures
        stmt_mapped(s, r, composed(f, g)),
    decreases s,
{
    match s {
        IRStmt::ConstraintCall(c) => {
            let d = m->ConstraintCall_0;
            let e = r->ConstraintCall_0;
            assert forall|i: int| #![trigger c.inputs@[i]] 0 <= i < c.inputs@.len() implies composed(f, g)(c.inputs@[i], e.inputs@[i]) by {
                assert(f(c.inputs@[i], d.inputs@[i]));
                assert(g(d.inputs@[i], e.inputs@[i]));
            }
        },
        IRStmt::Constraint(c) => {
            let d = m->Constraint_0;
            let e = r->Constraint_0;
            assert(f(c.lhs, d.lhs) && g(d.lhs, e.lhs));
            assert(f(c.rhs, d.rhs) && g(d.rhs, e.rhs));
        },
        IRStmt::Assert(a) => {
            law_mapped_compose(a.0, m->Assert_0.0, r->Assert_0.0, f, g);
        },
        IRStmt::Sequence(q) => {
            let p = m->Sequence_0;
            let t = r->Sequence_0;
            assert forall|i: int| #![trigger q.0@[i]] 0 <= i < q.0@.len() implies stmt_mapped(q.0@[i], t.0@[i], composed(f, g)) by {
                assert(decreases_to!(s => q.0@)) by {
                    assert(decreases_to!(q => q.0));
                    assert(decreases_to!(q.0 => q.0@));
                }
                assert(stmt_mapped(p.0@[i], t.0@[i], g));
                law_stmt_mapped_compose(q.0@[i], p.0@[i], t.0@[i], f, g);
            }
        },
        _ => {},
    }
}

/// `f`, which reads its argument by reference, may transform every expression of the
/// statement without error.
pub open spec fn stmt_leaves_ok_ref<T, E, F: Fn(&T) -> Result<T, E>>(s: IRStmt<T>, f: F) -> bool
    decreases s,
{
    match s {
        IRStmt::ConstraintCall(c) => forall|i: int| 0 <= i < c.inputs@.len() ==> leaf_ok_ref::<T, E, F>(#[trigger] c.inputs@[i], f),
        IRStmt::Constraint(c) => leaf_ok_ref::<T, E, F>(c.lhs, f) && leaf_ok_ref::<T, E, F>(c.rhs, f),
        IRStmt::Comment(_) => true,
        IRStmt::AssumeDeterministic(_) => true,
        IRStmt::Assert(a) => leaves_ok_ref::<T, E, F>(a.0, f),
        IRStmt::Sequence(q) => forall|i: int| 0 <= i < q.0@.len() ==> stmt_leaves_ok_ref::<T, E, F>(#[trigger] q.0@[i], f),
    }
}

/// Like [`call_fails_first`], for an `f` that reads its argument by reference.
pub open spec fn call_fails_first_ref<T, E, F: Fn(&T) -> Result<T, E>>(c: Call<T>, f: F, err: E) -> bool {
    exists|i: int| #![trigger c.inputs@[i]] 0 <= i < c.inputs@.len() && f.ensures((&c.inputs@[i],), Err::<T, E>(err))
        && forall|j: int| 0 <= j < i ==> leaf_ok_ref::<T, E, F>(#[trigger] c.inputs@[j], f)
}

/// Like [`stmt_fails_first`], for an `f` that reads its argument by reference.
pub open spec fn stmt_fails_first_ref<T, E, F: Fn(&T) -> Result<T, E>>(s: IRStmt<T>, f: F, err: E) -> bool
    decreases s,
{
    match s {
        IRStmt::ConstraintCall(c) => call_fails_first_ref::<T, E, F>(c, f, err),
        IRStmt::Constraint(c) => f.ensures((&c.lhs,), Err::<T, E>(err)) || (leaf_ok_ref::<T, E, F>(c.lhs, f)
            && f.ensures((&c.rhs,), Err::<T, E>(err))),
        IRStmt::Comment(_) => false,
        IRStmt::AssumeDeterministic(_) => false,
        IRStmt::Assert(a) => fails_first_ref::<T, E, F>(a.0, f, err),
        IRStmt::Sequence(q) => exists|i: int| 0 <= i < q.0@.len() && stmt_fails_first_ref::<T, E, F>(#[trigger] q.0@[i], f, err)
            && forall|j: int| 0 <= j < i ==> stmt_leaves_ok_ref::<T, E, F>(#[trigger] q.0@[j], f),
    }
}

/// `f` may transform every expression of the statement without error.
pub open spec fn stmt_leaves_ok<T, O, E, F: Fn(T) -> Result<O, E>>(s: IRStmt<T>, f: F) -> bool
    decreases s,
{
    match s {
        IRStmt::ConstraintCall(c) => forall|i: int| 0 <= i < c.inputs@.len() ==> leaf_ok::<T, O, E, F>(#[trigger] c.inputs@[i], f),
        IRStmt::Constraint(c) => leaf_ok::<T, O, E, F>(c.lhs, f) && leaf_ok::<T, O, E, F>(c.rhs, f),
        IRStmt::Comment(_) => true,
        IRStmt::AssumeDeterministic(_) => true,
        IRStmt::Assert(a) => leaves_ok::<T, O, E, F>(a.0, f),
        IRStmt::Sequence(q) => forall|i: int| 0 <= i < q.0@.len() ==> stmt_leaves_ok::<T, O, E, F>(#[trigger] q.0@[i], f),
    }
}

/// Transforming the arguments of the call from left to right, `f` may give the error `err`
/// at some argument after having transformed every argument before it.
pub open spec fn call_fails_first<T, O, E, F: Fn(T) -> Result<O, E>>(c: Call<T>, f: F, err: E) -> bool {
    exists|i: int| #![trigger c.inputs@[i]] 0 <= i < c.inputs@.len() && f.ensures((c.inputs@[i],), Err::<O, E>(err))
        && forall|j: int| 0 <= j < i ==> leaf_ok::<T, O, E, F>(#[trigger] c.inputs@[j], f)
}

/// Transforming the expressions of the statement from left to right, `f` may give the error
/// `err` at some expression after having transformed every expression before it.
pub open spec fn stmt_fails_first<T, O, E, F: Fn(T) -> Result<O, E>>(s: IRStmt<T>, f: F, err: E) -> bool
    decreases s,
{
    match s {
        IRStmt::ConstraintCall(c) => call_fails_first::<T, O, E, F>(c, f, err),
        IRStmt::Constraint(c) => f.ensures((c.lhs,), Err::<O, E>(err)) || (leaf_ok::<T, O, E, F>(c.lhs, f)
            && f.ensures((c.rhs,), Err::<O, E>(err))),
        IRStmt::Comment(_) => false,
        IRStmt::AssumeDeterministic(_) => false,
        IRStmt::Assert(a) => fails_first::<T, O, E, F>(a.0, f, err),
        IRStmt::Sequence(q) => exists|i: int| 0 <= i < q.0@.len() && stmt_fails_first::<T, O, E, F>(#[trigger] q.0@[i], f, err)
            && forall|j: int| 0 <= j < i ==> stmt_leaves_ok::<T, O, E, F>(#[trigger] q.0@[j], f),
    }
}

impl<T> Call<T> {
    /// Transforms the arguments of the call.
    pub fn map<O, F: Fn(T) -> O>(self, f: &F) -> (r: Call<O>)
        requires
            forall|t: T| f.requires((t,)),
        ensures
            call_mapped(self, r, |a: T, b: O| f.ensures((a,), b)),
    {
        let ghost orig = self.inputs@;
        let mut stack = reverse_vec(self.inputs);
        let mut out: Vec<O> = Vec::new();
        while stack.len() > 0
            invariant
                out@.len() + stack@.len() == orig.len(),
                forall|k: int| 0 <= k < stack@.len() ==> stack@[k] == orig[orig.len() - 1 - k],
                forall|t: T| f.requires((t,)),
                forall|i: int| #![trigger orig[i]] 0 <= i < out@.len() ==> f.ensures((orig[i],), out@[i]),
            decreases stack@.len(),
        {
            let x = stack.pop().unwrap();
            assert(x == orig[out@.len() as int]);
            let y = f(x);
            out.push(y);
        }
        Call { callee: self.callee, inputs: out, outputs: self.outputs }
    }

    /// Transforms the arguments of the call without moving it.
    pub fn map_into<O, F: Fn(&T) -> O>(&self, f: &F) -> (r: Call<O>)
        requires
            forall|t: &T| f.requires((t,)),
        ensures
            call_mapped(*self, r, |a: T, b: O| f.ensures((&a,), b)),
    {
        let mut out: Vec<O> = Vec::new();
        let mut i: usize = 0;
        while i < self.inputs.len()
            invariant
                i <= self.inputs@.len(),
                out@.len() == i,
                forall|t: &T| f.requires((t,)),
                forall|j: int| #![trigger self.inputs@[j]] 0 <= j < i ==> f.ensures((&self.inputs@[j],), out@[j]),
            decreases self.inputs@.len() - i,
        {
            let y = f(&self.inputs[i]);
            out.push(y);
            i = i + 1;
        }
        Call { callee: self.callee.clone(), inputs: out, outputs: self.outputs.clone() }
    }

    /// Transforms the arguments of the call, from left to right, stopping at the first error.
    pub fn try_map<O, E, F: Fn(T) -> Result<O, E>>(self, f: &F) -> (r: Result<Call<O>, E>)
        requires
            forall|t: T| f.requires((t,)),
        ensures
            r matches Ok(d) ==> call_mapped(self, d, |a: T, b: O| f.ensures((a,), Ok::<O, E>(b))),
            r matches Err(e) ==> exists|i: int| #![trigger self.inputs@[i]] 0 <= i < self.inputs@.len() && f.ensures((self.inputs@[i],), Err::<O, E>(e)),
            r matches Err(e) ==> stmt_fails_first::<T, O, E, F>(IRStmt::ConstraintCall(self), *f, e),
            r is Ok ==> stmt_leaves_ok::<T, O, E, F>(IRStmt::ConstraintCall(self), *f),
            (forall|a: T, res: Result<O, E>| f.ensures((a,), res) ==> res is Ok) ==> r is Ok,
    {
        let ghost orig = self.inputs@;
        let mut stack = reverse_vec(self.inputs);
        let mut out: Vec<O> = Vec::new();
        while stack.len() > 0
            invariant
                orig == self.inputs@,
                out@.len() + stack@.len() == orig.len(),
                forall|k: int| 0 <= k < stack@.len() ==> stack@[k] == orig[orig.len() - 1 - k],
                forall|t: T| f.requires((t,)),
                forall|i: int| #![trigger orig[i]] 0 <= i < out@.len() ==> f.ensures((orig[i],), Ok::<O, E>(out@[i])),
            decreases stack@.len(),
        {
            let x = stack.pop().unwrap();
            let ghost k = out@.len() as int;
            assert(x == orig[k]);
            match f(x) {
                Ok(y) => out.push(y),
                Err(e) => {
                    assert(f.ensures((self.inputs@[k],), Err::<O, E>(e)));
                    proof {
                        assert forall|j: int| 0 <= j < k implies leaf_ok::<T, O, E, F>(#[trigger] self.inputs@[j], *f) by {
                            assert(f.ensures((orig[j],), Ok::<O, E>(out@[j])));
                        }
                        assert(call_fails_first::<T, O, E, F>(self, *f, e));
                    }
                    return Err(e);
                },
            }
        }
        proof {
            assert forall|j: int| 0 <= j < orig.len() implies leaf_ok::<T, O, E, F>(#[trigger] self.inputs@[j], *f) by {
                assert(f.ensures((orig[j],), Ok::<O, E>(out@[j])));
            }
        }
        Ok(Call { callee: self.callee, inputs: out, outputs: self.outputs })
    }

    /// Replaces each argument by what `f` computes from it, from left to right; at the first
    /// error the remaining arguments are kept and the error is returned.
    fn try_map_keep<E, F: Fn(&T) -> Result<T, E>>(self, f: &F) -> (r: (Call<T>, Option<E>))
        requires
            forall|t: &T| f.requires((t,)),
        ensures
            r.0.callee@ == self.callee@,
            r.0.outputs@ == self.outputs@,
            r.0.inputs@.len() == self.inputs@.len(),
            forall|i: int| #![trigger self.inputs@[i]] 0 <= i < self.inputs@.len() ==> (r.0.inputs@[i] == self.inputs@[i]
                || f.ensures((&self.inputs@[i],), Ok::<T, E>(r.0.inputs@[i]))),
            r.1 is None ==> call_mapped(self, r.0, |a: T, b: T| f.ensures((&a,), Ok::<T, E>(b))),
            r.1 matches Some(e) ==> exists|i: int| #![trigger self.inputs@[i]] 0 <= i < self.inputs@.len() && f.ensures((&self.inputs@[i],), Err::<T, E>(e)),
            r.1 is None ==> stmt_leaves_ok_ref::<T, E, F>(IRStmt::ConstraintCall(self), *f),
            r.1 matches Some(e) ==> call_fails_first_ref::<T, E, F>(self, *f, e),
            (forall|a: &T, res: Result<T, E>| f.ensures((a,), res) ==> res is Ok) ==> r.1 is None,
    {
        let ghost orig = self.inputs@;
        let mut stack = reverse_vec(self.inputs);
        let mut out: Vec<T> = Vec::new();
        let mut err: Option<E> = None;
        while stack.len() > 0
            invariant
                orig == self.inputs@,
                out@.len() + stack@.len() == orig.len(),
                forall|k: int| 0 <= k < stack@.len() ==> stack@[k] == orig[orig.len() - 1 - k],
                forall|t: &T| f.requires((t,)),
                forall|i: int| #![trigger orig[i]] 0 <= i < out@.len() ==> (out@[i] == orig[i] || f.ensures((&orig[i],), Ok::<T, E>(out@[i]))),
                err is None ==> forall|i: int| #![trigger orig[i]] 0 <= i < out@.len() ==> f.ensures((&orig[i],), Ok::<T, E>(out@[i])),
                err matches Some(e) ==> exists|i: int| #![trigger orig[i]] 0 <= i < out@.len() && f.ensures((&orig[i],), Err::<T, E>(e)),
                err matches Some(e) ==> exists|i: int| #![trigger orig[i]] 0 <= i < out@.len() && f.ensures((&orig[i],), Err::<T, E>(e))
                    && forall|j: int| 0 <= j < i ==> leaf_ok_ref::<T, E, F>(#[trigger] orig[j], *f),
                (forall|a: &T, res: Result<T, E>| f.ensures((a,), res) ==> res is Ok) ==> err is None,
            decreases stack@.len(),
        {
            let x = stack.pop().unwrap();
            let ghost k = out@.len() as int;
            assert(x == orig[k]);
            if err.is_some() {
                out.push(x);
            } else {
                match f(&x) {
                    Ok(y) => out.push(y),
                    Err(e) => {
                        proof {
                            assert forall|j: int| 0 <= j < k implies leaf_ok_ref::<T, E, F>(#[trigger] orig[j], *f) by {
                                assert(f.ensures((&orig[j],), Ok::<T, E>(out@[j])));
                            }
                        }
                        out.push(x);
                        err = Some(e);
                    },
                }
            }
        }
        proof {
            if err is None {
                assert forall|j: int| 0 <= j < orig.len() implies leaf_ok_ref::<T, E, F>(#[trigger] orig[j], *f) by {
                    assert(f.ensures((&orig[j],), Ok::<T, E>(out@[j])));
                }
            }
            if err is Some {
                assert(call_fails_first_ref::<T, E, F>(self, *f, err->Some_0));
            }
        }
        (Call { callee: self.callee, inputs: out, outputs: self.outputs }, err)
    }
}

impl<T> Constraint<T> {
    /// Transforms both sides of the constraint.
    pub fn map<O, F: Fn(T) -> O>(self, f: &F) -> (r: Constraint<O>)
        requires
            forall|t: T| f.requires((t,)),
        ensures
            r.op == self.op,
            f.ensures((self.lhs,), r.lhs),
            f.ensures((self.rhs,), r.rhs),
    {
        Constraint::new(self.op, f(self.lhs), f(self.rhs))
    }

    /// Transforms both sides of the constraint, the left one first, stopping at the first
    /// error: an error of the right side comes only after the left side was transformed.
    pub fn try_map<O, E, F: Fn(T) -> Result<O, E>>(self, f: &F) -> (r: Result<Constraint<O>, E>)
        requires
            forall|t: T| f.requires((t,)),
        ensures
            r matches Ok(d) ==> d.op == self.op && f.ensures((self.lhs,), Ok::<O, E>(d.lhs))
                && f.ensures((self.rhs,), Ok::<O, E>(d.rhs)),
            r matches Err(e) ==> f.ensures((self.lhs,), Err::<O, E>(e)) || (exists|o: O|
                f.ensures((self.lhs,), Ok::<O, E>(o))) && f.ensures((self.rhs,), Err::<O, E>(e)),
            r matches Err(e) ==> stmt_fails_first::<T, O, E, F>(IRStmt::Constraint(self), *f, e),
            r is Ok ==> stmt_leaves_ok::<T, O, E, F>(IRStmt::Constraint(self), *f),
            (forall|a: T, res: Result<O, E>| f.ensures((a,), res) ==> res is Ok) ==> r is Ok,
    {
        match f(self.lhs) {
            Err(e) => Err(e),
            Ok(l) => match f(self.rhs) {
                Err(e) => Err(e),
                Ok(r) => Ok(Constraint::new(self.op, l, r)),
            },
        }
    }
}

impl<T> Assert<T> {
    /// Transforms the expressions of the asserted condition.
    pub fn map<O, F: Fn(T) -> O>(self, f: &F) -> (r: Assert<O>)
        requires
            forall|t: T| f.requires((t,)),
        ensures
            mapped(self.0, r.0, |a: T, b: O| f.ensures((a,), b)),
    {
        Assert::new(self.0.map(f))
    }

    /// Transforms the expressions of the asserted condition, stopping at the first error.
    pub fn try_map<O, E, F: Fn(T) -> Result<O, E>>(self, f: &F) -> (r: Result<Assert<O>, E>)
        requires
            forall|t: T| f.requires((t,)),
        ensures
            r matches Ok(x) ==> mapped(self.0, x.0, |a: T, b: O| f.ensures((a,), Ok::<O, E>(b))),
            r matches Err(e) ==> has_leaf(self.0, |a: T| f.ensures((a,), Err::<O, E>(e))),
            r matches Err(e) ==> fails_first::<T, O, E, F>(self.0, *f, e),
            r is Ok ==> leaves_ok::<T, O, E, F>(self.0, *f),
            (forall|a: T, res: Result<O, E>| f.ensures((a,), res) ==> res is Ok) ==> r is Ok,
    {
        match self.0.try_map(f) {
            Ok(x) => Ok(Assert::new(x)),
            Err(e) => Err(e),
        }
    }
}

impl<T> IRStmt<T> {
    /// Transforms the inner expression type into another.
    pub fn map<O, F: Fn(T) -> O>(self, f: &F) -> (r: IRStmt<O>)
        requires
            forall|t: T| f.requires((t,)),
        ensures
            stmt_mapped(self, r, |a: T, b: O| f.ensures((a,), b)),
        decreases self,
    {
        match self {
            IRStmt::ConstraintCall(c) => IRStmt::ConstraintCall(c.map(f)),
            IRStmt::Constraint(c) => IRStmt::Constraint(c.map(f)),
            IRStmt::Comment(c) => IRStmt::Comment(Comment::new(c.value())),
            IRStmt::AssumeDeterministic(a) => IRStmt::AssumeDeterministic(
                AssumeDeterministic::new(a.value()),
            ),
            IRStmt::Assert(a) => IRStmt::Assert(a.map(f)),
            IRStmt::Sequence(q) => {
                proof {
                    assert(decreases_to!(self => q.0)) by {
                        assert(decreases_to!(q => q.0));
                    }
                }
                IRStmt::Sequence(StmtSeq(Self::map_all(q.0, f)))
            },
        }
    }

    fn map_all<O, F: Fn(T) -> O>(xs: Vec<IRStmt<T>>, f: &F) -> (r: Vec<IRStmt<O>>)
        requires
            forall|t: T| f.requires((t,)),
        ensures
            r@.len() == xs@.len(),
            forall|i: int| #![trigger xs@[i]] 0 <= i < xs@.len() ==> stmt_mapped(xs@[i], r@[i], |a: T, b: O| f.ensures((a,), b)),
        decreases xs,
    {
        let ghost orig = xs;
        let mut stack = reverse_vec(xs);
        let mut out: Vec<IRStmt<O>> = Vec::new();
        while stack.len() > 0
            invariant
                orig == xs,
                out@.len() + stack@.len() == orig@.len(),
                forall|k: int| 0 <= k < stack@.len() ==> stack@[k] == orig@[orig@.len() - 1 - k],
                forall|t: T| f.requires((t,)),
                forall|i: int| #![trigger orig@[i]] 0 <= i < out@.len() ==> stmt_mapped(orig@[i], out@[i], |a: T, b: O| f.ensures((a,), b)),
            decreases stack@.len(),
        {
            let x = stack.pop().unwrap();
            proof {
                assert(x == orig@[out@.len() as int]);
                assert(decreases_to!(orig => orig@));
                assert(decreases_to!(orig@ => orig@[out@.len() as int]));
            }
            let y = x.map(f);
            out.push(y);
        }
        out
    }

    /// Transforms the inner expression type into another, without moving.
    pub fn map_into<O, F: Fn(&T) -> O>(&self, f: &F) -> (r: IRStmt<O>)
        requires
            forall|t: &T| f.requires((t,)),
        ensures
            stmt_mapped(*self, r, |a: T, b: O| f.ensures((&a,), b)),
        decreases self,
    {
        match self {
            IRStmt::ConstraintCall(c) => IRStmt::ConstraintCall(c.map_into(f)),
            IRStmt::Constraint(c) => IRStmt::Constraint(Constraint::new(c.op, f(&c.lhs), f(&c.rhs))),
            IRStmt::Comment(c) => IRStmt::Comment(Comment::new(c.value())),
            IRStmt::AssumeDeterministic(a) => IRStmt::AssumeDeterministic(
                AssumeDeterministic::new(a.value()),
            ),
            IRStmt::Assert(a) => IRStmt::Assert(Assert::new(a.0.map_into(f))),
            IRStmt::Sequence(q) => {
                proof {
                    assert(decreases_to!(*self => q.0)) by {
                        assert(decreases_to!(*q => q.0));
                    }
                }
                IRStmt::Sequence(StmtSeq(Self::map_into_all(&q.0, f)))
            },
        }
    }

    fn map_into_all<O, F: Fn(&T) -> O>(xs: &Vec<IRStmt<T>>, f: &F) -> (r: Vec<IRStmt<O>>)
        requires
            forall|t: &T| f.requires((t,)),
        ensures
            r@.len() == xs@.len(),
            forall|i: int| #![trigger xs@[i]] 0 <= i < xs@.len() ==> stmt_mapped(xs@[i], r@[i], |a: T, b: O| f.ensures((&a,), b)),
        decreases xs,
    {
        let mut out: Vec<IRStmt<O>> = Vec::new();
        let mut i: usize = 0;
        while i < xs.len()
            invariant
                i <= xs@.len(),
                out@.len() == i,
                forall|t: &T| f.requires((t,)),
                forall|j: int| #![trigger xs@[j]] 0 <= j < i ==> stmt_mapped(xs@[j], out@[j], |a: T, b: O| f.ensures((&a,), b)),
            decreases xs@.len() - i,
        {
            proof {
                assert(decreases_to!(xs => xs@));
                assert(decreases_to!(xs@ => xs@[i as int]));
            }
            let y = xs[i].map_into(f);
            out.push(y);
            i = i + 1;
        }
        out
    }

    /// Tries to transform the inner expression type into another; the expressions are
    /// transformed from left to right and the first error is returned.
    pub fn try_map<O, E, F: Fn(T) -> Result<O, E>>(self, f: &F) -> (r: Result<IRStmt<O>, E>)
        requires
            forall|t: T| f.requires((t,)),
        ensures
            r matches Ok(x) ==> stmt_mapped(self, x, |a: T, b: O| f.ensures((a,), Ok::<O, E>(b))),
            r matches Err(e) ==> stmt_has_leaf(self, |a: T| f.ensures((a,), Err::<O, E>(e))),
            r matches Err(e) ==> stmt_fails_first::<T, O, E, F>(self, *f, e),
            r is Ok ==> stmt_leaves_ok::<T, O, E, F>(self, *f),
            (forall|a: T, res: Result<O, E>| f.ensures((a,), res) ==> res is Ok) ==> r is Ok,
        decreases self,
    {
        match self {
            IRStmt::ConstraintCall(c) => match c.try_map(f) {
                Ok(d) => Ok(IRStmt::ConstraintCall(d)),
                Err(e) => Err(e),
            },
            IRStmt::Constraint(c) => match c.try_map(f) {
                Ok(d) => Ok(IRStmt::Constraint(d)),
                Err(e) => Err(e),
            },
            IRStmt::Comment(c) => Ok(IRStmt::Comment(Comment::new(c.value()))),
            IRStmt::AssumeDeterministic(a) => Ok(
                IRStmt::AssumeDeterministic(AssumeDeterministic::new(a.value())),
            ),
            IRStmt::Assert(a) => match a.try_map(f) {
                Ok(b) => Ok(IRStmt::Assert(b)),
                Err(e) => Err(e),
            },
            IRStmt::Sequence(q) => {
                proof {
                    assert(decreases_to!(self => q.0)) by {
                        assert(decreases_to!(q => q.0));
                    }
                }
                match Self::try_map_all(q.0, f) {
                    Ok(ys) => Ok(IRStmt::Sequence(StmtSeq(ys))),
                    Err(e) => Err(e),
                }
            },
        }
    }

    fn try_map_all<O, E, F: Fn(T) -> Result<O, E>>(xs: Vec<IRStmt<T>>, f: &F) -> (r: Result<Vec<IRStmt<O>>, E>)
        requires
            forall|t: T| f.requires((t,)),
        ensures
            r matches Ok(ys) ==> ys@.len() == xs@.len() && forall|i: int| #![trigger xs@[i]] 0 <= i < xs@.len()
                ==> stmt_mapped(xs@[i], ys@[i], |a: T, b: O| f.ensures((a,), Ok::<O, E>(b))),
            r matches Err(e) ==> exists|i: int| #![trigger xs@[i]] 0 <= i < xs@.len()
                && stmt_has_leaf(xs@[i], |a: T| f.ensures((a,), Err::<O, E>(e))),
            r is Ok ==> forall|i: int| 0 <= i < xs@.len() ==> stmt_leaves_ok::<T, O, E, F>(#[trigger] xs@[i], *f),
            r matches Err(e) ==> exists|i: int| 0 <= i < xs@.len() && stmt_fails_first::<T, O, E, F>(#[trigger] xs@[i], *f, e)
                && forall|j: int| 0 <= j < i ==> stmt_leaves_ok::<T, O, E, F>(#[trigger] xs@[j], *f),
            (forall|a: T, res: Result<O, E>| f.ensures((a,), res) ==> res is Ok) ==> r is Ok,
        decreases xs,
    {
        let ghost orig = xs;
        let mut stack = reverse_vec(xs);
        let mut out: Vec<IRStmt<O>> = Vec::new();
        while stack.len() > 0
            invariant
                orig == xs,
                out@.len() + stack@.len() == orig@.len(),
                forall|k: int| 0 <= k < stack@.len() ==> stack@[k] == orig@[orig@.len() - 1 - k],
                forall|t: T| f.requires((t,)),
                forall|i: int| #![trigger orig@[i]] 0 <= i < out@.len() ==> stmt_mapped(orig@[i], out@[i], |a: T, b: O| f.ensures((a,), Ok::<O, E>(b))),
                forall|i: int| 0 <= i < out@.len() ==> stmt_leaves_ok::<T, O, E, F>(#[trigger] orig@[i], *f),
            decreases stack@.len(),
        {
            let x = stack.pop().unwrap();
            let ghost idx = out@.len() as int;
            proof {
                assert(x == orig@[idx]);
                assert(decreases_to!(orig => orig@));
                assert(decreases_to!(orig@ => orig@[idx]));
            }
            match x.try_map(f) {
                Ok(y) => out.push(y),
                Err(e) => {
                    proof {
                        assert(stmt_has_leaf(orig@[idx], |a: T| f.ensures((a,), Err::<O, E>(e))));
                        assert(stmt_fails_first::<T, O, E, F>(orig@[idx], *f, e));
                    }
                    return Err(e);
                },
            }
        }
        Ok(out)
    }

    /// Tries to modify the inner expressions in place: each one is replaced by what `f`
    /// computes from it, from left to right; at the first error the remaining expressions are
    /// kept as they are and the error is returned.
    pub fn try_map_inplace<E, F: Fn(&T) -> Result<T, E>>(&mut self, f: &F) -> (r: Result<(), E>)
        requires
            forall|t: &T| f.requires((t,)),
        ensures
            stmt_mapped_or_kept(*old(self), *final(self), |a: T, b: T| f.ensures((&a,), Ok::<T, E>(b))),
            r is Ok ==> stmt_mapped(*old(self), *final(self), |a: T, b: T| f.ensures((&a,), Ok::<T, E>(b))),
            r matches Err(e) ==> stmt_has_leaf(*old(self), |a: T| f.ensures((&a,), Err::<T, E>(e))),
            r matches Err(e) ==> stmt_fails_first_ref::<T, E, F>(*old(self), *f, e),
            r is Ok ==> stmt_leaves_ok_ref::<T, E, F>(*old(self), *f),
            (forall|a: &T, res: Result<T, E>| f.ensures((a,), res) ==> res is Ok) ==> r is Ok,
    {
        let mut tmp = IRStmt::empty();
        std::mem::swap(&mut tmp, self);
        let (t, err) = tmp.try_map_keep(f);
        *self = t;
        match err {
            Some(e) => Err(e),
            None => Ok(()),
        }
    }

    fn try_map_keep<E, F: Fn(&T) -> Result<T, E>>(self, f: &F) -> (r: (IRStmt<T>, Option<E>))
        requires
            forall|t: &T| f.requires((t,)),
        ensures
            stmt_mapped_or_kept(self, r.0, |a: T, b: T| f.ensures((&a,), Ok::<T, E>(b))),
            r.1 is None ==> stmt_mapped(self, r.0, |a: T, b: T| f.ensures((&a,), Ok::<T, E>(b))),
            r.1 matches Some(e) ==> stmt_has_leaf(self, |a: T| f.ensures((&a,), Err::<T, E>(e))),
            r.1 is None ==> stmt_leaves_ok_ref::<T, E, F>(self, *f),
            r.1 matches Some(e) ==> stmt_fails_first_ref::<T, E, F>(self, *f, e),
            (forall|a: &T, res: Result<T, E>| f.ensures((a,), res) ==> res is Ok) ==> r.1 is None,
        decreases self,
    {
        match self {
            IRStmt::ConstraintCall(c) => {
                let (d, e) = c.try_map_keep(f);
                (IRStmt::ConstraintCall(d), e)
            },
            IRStmt::Constraint(c) => {
                match f(&c.lhs) {
                    Ok(l) => match f(&c.rhs) {
                        Ok(r) => (IRStmt::Constraint(Constraint::new(c.op, l, r)), None),
                        Err(e) => (IRStmt::Constraint(Constraint::new(c.op, l, c.rhs)), Some(e)),
                    },
                    Err(e) => (IRStmt::Constraint(c), Some(e)),
                }
            },
            IRStmt::Comment(c) => (IRStmt::Comment(c), None),
            IRStmt::AssumeDeterministic(a) => (IRStmt::AssumeDeterministic(a), None),
            IRStmt::Assert(a) => {
                let mut x = a.0;
                let res = x.try_map_inplace(f);
                (
                    IRStmt::Assert(Assert(x)),
                    match res {
                        Ok(()) => None,
                        Err(e) => Some(e),
                    },
                )
            },
            IRStmt::Sequence(q) => {
                proof {
                    assert(decreases_to!(self => q.0)) by {
                        assert(decreases_to!(q => q.0));
                    }
                }
                let (ys, e) = Self::try_map_keep_all(q.0, f);
                (IRStmt::Sequence(StmtSeq(ys)), e)
            },
        }
    }

    fn try_map_keep_all<E, F: Fn(&T) -> Result<T, E>>(xs: Vec<IRStmt<T>>, f: &F) -> (r: (Vec<IRStmt<T>>, Option<E>))
        requires
            forall|t: &T| f.requires((t,)),
        ensures
            r.0@.len() == xs@.len(),
            forall|i: int| #![trigger xs@[i]] 0 <= i < xs@.len() ==> stmt_mapped_or_kept(xs@[i], r.0@[i], |a: T, b: T| f.ensures((&a,), Ok::<T, E>(b))),
            r.1 is None ==> forall|i: int| #![trigger xs@[i]] 0 <= i < xs@.len() ==> stmt_mapped(xs@[i], r.0@[i], |a: T, b: T| f.ensures((&a,), Ok::<T, E>(b))),
            r.1 matches Some(e) ==> exists|i: int| #![trigger xs@[i]] 0 <= i < xs@.len() && stmt_has_leaf(xs@[i], |a: T| f.ensures((&a,), Err::<T, E>(e))),
            r.1 is None ==> forall|i: int| 0 <= i < xs@.len() ==> stmt_leaves_ok_ref::<T, E, F>(#[trigger] xs@[i], *f),
            r.1 matches Some(e) ==> exists|i: int| 0 <= i < xs@.len() && stmt_fails_first_ref::<T, E, F>(#[trigger] xs@[i], *f, e)
                && forall|j: int| 0 <= j < i ==> stmt_leaves_ok_ref::<T, E, F>(#[trigger] xs@[j], *f),
            (forall|a: &T, res: Result<T, E>| f.ensures((a,), res) ==> res is Ok) ==> r.1 is None,
        decreases xs,
    {
        let ghost orig = xs;
        let mut stack = reverse_vec(xs);
        let mut out: Vec<IRStmt<T>> = Vec::new();
        let mut err: Option<E> = None;
        while stack.len() > 0
            invariant
                orig == xs,
                out@.len() + stack@.len() == orig@.len(),
                forall|k: int| 0 <= k < stack@.len() ==> stack@[k] == orig@[orig@.len() - 1 - k],
                forall|t: &T| f.requires((t,)),
                forall|i: int| #![trigger orig@[i]] 0 <= i < out@.len() ==> stmt_mapped_or_kept(orig@[i], out@[i], |a: T, b: T| f.ensures((&a,), Ok::<T, E>(b))),
                err is None ==> forall|i: int| #![trigger orig@[i]] 0 <= i < out@.len() ==> stmt_mapped(orig@[i], out@[i], |a: T, b: T| f.ensures((&a,), Ok::<T, E>(b))),
                err matches Some(e) ==> exists|i: int| #![trigger orig@[i]] 0 <= i < out@.len() && stmt_has_leaf(orig@[i], |a: T| f.ensures((&a,), Err::<T, E>(e))),
                err is None ==> forall|i: int| 0 <= i < out@.len() ==> stmt_leaves_ok_ref::<T, E, F>(#[trigger] orig@[i], *f),
                err matches Some(e) ==> exists|i: int| 0 <= i < out@.len() && stmt_fails_first_ref::<T, E, F>(#[trigger] orig@[i], *f, e)
                    && forall|j: int| 0 <= j < i ==> stmt_leaves_ok_ref::<T, E, F>(#[trigger] orig@[j], *f),
                (forall|a: &T, res: Result<T, E>| f.ensures((a,), res) ==> res is Ok) ==> err is None,
            decreases stack@.len(),
        {
            let x = stack.pop().unwrap();
            let ghost idx = out@.len() as int;
            proof {
                assert(x == orig@[idx]);
                assert(decreases_to!(orig => orig@));
                assert(decreases_to!(orig@ => orig@[idx]));
            }
            if err.is_some() {
                proof {
                    lemma_stmt_mapped_or_kept_refl(x, |a: T, b: T| f.ensures((&a,), Ok::<T, E>(b)));
                }
                out.push(x);
            } else {
                let (y, e) = x.try_map_keep(f);
                out.push(y);
                err = e;
            }
        }
        (out, err)
    }
}

/// Every statement is related to itself by [`stmt_mapped_or_kept`].
pub proof fn lemma_stmt_mapped_or_kept_refl<T>(s: IRStmt<T>, rel: spec_fn(T, T) -> bool)
    ensures
        stmt_mapped_or_kept(s, s, rel),
    decreases s,
{
    match s {
        IRStmt::Assert(a) => {
            crate::ir::bexpr::lemma_mapped_or_kept_refl(a.0, rel);
        },
        IRStmt::Sequence(q) => {
            assert forall|i: int| #![trigger q.0@[i]] 0 <= i < q.0@.len() implies stmt_mapped_or_kept(q.0@[i], q.0@[i], rel) by {
                assert(decreases_to!(s => q.0@)) by {
                    assert(decreases_to!(q => q.0));
                    assert(decreases_to!(q.0 => q.0@));
                }
                lemma_stmt_mapped_or_kept_refl(q.0@[i], rel);
            }
        },
        _ => {},
    }
}

/// Why the constant folding of a statement failed.
#[derive(Debug, Clone, Copy, PartialEq, Eq, Structural)]
pub enum FoldError {
    /// A constraint or an assertion folded into a proposition that cannot hold.
    Unsatisfiable,
}

/// Some constraint or assertion of `s` folds, in the field of order `p`, into a proposition
/// that cannot hold.
pub open spec fn stmt_unsat(s: IRStmt<IRAexpr>, p: nat) -> bool
    decreases s,
{
    match s {
        IRStmt::Constraint(c) => {
            let a = fold(c.lhs@, p);
            let b = fold(c.rhs@, p);
            a is Constant && b is Constant && !op_holds(c.op, a->Constant_0 as int, b->Constant_0 as int)
        },
        IRStmt::Assert(a) => bfold(a.0@, p) is False,
        IRStmt::Sequence(q) => exists|i: int| #![trigger q.0@[i]] 0 <= i < q.0@.len() && stmt_unsat(q.0@[i], p),
        _ => false,
    }
}

/// The statement is an empty sequence.
pub open spec fn is_empty_stmt<T>(s: IRStmt<T>) -> bool {
    s matches IRStmt::Sequence(q) && q.0@.len() == 0
}

/// `r` is `s` with its constants folded in the field of order `p`: the expressions are
/// folded; a constraint between two constants that holds, and an assertion that folds into
/// `True`, become the empty statement.
pub open spec fn stmt_folded(s: IRStmt<IRAexpr>, r: IRStmt<IRAexpr>, p: nat) -> bool
    decreases s,
{
    match s {
        IRStmt::ConstraintCall(c) => r matches IRStmt::ConstraintCall(d) && d.callee@ == c.callee@
            && d.outputs@ == c.outputs@ && d.inputs@.len() == c.inputs@.len() && forall|i: int|
            #![trigger c.inputs@[i]]
            0 <= i < c.inputs@.len() ==> d.inputs@[i]@ == fold(c.inputs@[i]@, p),
        IRStmt::Constraint(c) => {
            let a = fold(c.lhs@, p);
            let b = fold(c.rhs@, p);
            if a is Constant && b is Constant {
                is_empty_stmt(r)
            } else {
                r matches IRStmt::Constraint(d) && d.op == c.op && d.lhs@ == a && d.rhs@ == b
            }
        },
        IRStmt::Comment(c) => r matches IRStmt::Comment(d) && d.0@ == c.0@,
        IRStmt::AssumeDeterministic(a) => r matches IRStmt::AssumeDeterministic(b) && b.0 == a.0,
        IRStmt::Assert(a) => {
            let y = bfold(a.0@, p);
            if y is True {
                is_empty_stmt(r)
            } else {
                r matches IRStmt::Assert(b) && b.0@ == y
            }
        },
        IRStmt::Sequence(q) => r matches IRStmt::Sequence(q2) && q2.0@.len() == q.0@.len() && forall|i: int|
            #![trigger q.0@[i]]
            0 <= i < q.0@.len() ==> stmt_folded(q.0@[i], q2.0@[i], p),
    }
}

/// `r` is `s` canonicalized: each constraint and each assertion is rewritten as
/// [`canonical_constraint`] and [`bcanon`] say.
pub open spec fn stmt_canon(s: IRStmt<IRAexpr>, r: IRStmt<IRAexpr>) -> bool
    decreases s,
{
    match s {
        IRStmt::Constraint(c) => match canonical_constraint(c.op, c.lhs@, c.rhs@) {
            Some((o, a, b)) => r matches IRStmt::Constraint(d) && d.op == o && d.lhs@ == a && d.rhs@ == b,
            None => r matches IRStmt::Constraint(d) && d.op == c.op && d.lhs@ == c.lhs@ && d.rhs@ == c.rhs@,
        },
        IRStmt::Assert(a) => r matches IRStmt::Assert(b) && b.0@ == bcanon(a.0@),
        IRStmt::Sequence(q) => r matches IRStmt::Sequence(q2) && q2.0@.len() == q.0@.len() && forall|i: int|
            #![trigger q.0@[i]]
            0 <= i < q.0@.len() ==> stmt_canon(q.0@[i], q2.0@[i]),
        IRStmt::ConstraintCall(c) => r == s,
        IRStmt::Comment(c) => r == s,
        IRStmt::AssumeDeterministic(a) => r == s,
    }
}

impl Call<IRAexpr> {
    /// Folds the constants of the arguments of the call.
    fn folded(self, prime: &Felt) -> (r: Call<IRAexpr>)
        requires
            prime@ > 0,
        ensures
            r.callee@ == self.callee@,
            r.outputs@ == self.outputs@,
            r.inputs@.len() == self.inputs@.len(),
            forall|i: int| #![trigger self.inputs@[i]] 0 <= i < self.inputs@.len() ==> r.inputs@[i]@ == fold(self.inputs@[i]@, prime@),
    {
        let ghost orig = self.inputs@;
        let mut stack = reverse_vec(self.inputs);
        let mut out: Vec<IRAexpr> = Vec::new();
        while stack.len() > 0
            invariant
                prime@ > 0,
                out@.len() + stack@.len() == orig.len(),
                forall|k: int| 0 <= k < stack@.len() ==> stack@[k] == orig[orig.len() - 1 - k],
                forall|i: int| #![trigger orig[i]] 0 <= i < out@.len() ==> out@[i]@ == fold(orig[i]@, prime@),
            decreases stack@.len(),
        {
            let x = stack.pop().unwrap();
            assert(x == orig[out@.len() as int]);
            out.push(x.folded(prime));
        }
        Call { callee: self.callee, inputs: out, outputs: self.outputs }
    }
}

impl IRStmt<IRAexpr> {
    /// The statement with its constants folded in the field of order `prime`, as
    /// [`stmt_folded`] says, and `Err` when some constraint or assertion cannot hold. On an
    /// error the statement returned is folded up to the failing one.
    fn folded(self, prime: &Felt) -> (r: (IRStmt<IRAexpr>, Result<(), FoldError>))
        requires
            prime@ > 0,
        ensures
            r.1 is Ok <==> !stmt_unsat(self, prime@),
            r.1 is Ok ==> stmt_folded(self, r.0, prime@),
        decreases self,
    {
        match self {
            IRStmt::ConstraintCall(c) => (IRStmt::ConstraintCall(c.folded(prime)), Ok(())),
            IRStmt::Constraint(c) => {
                let op = c.op;
                let a = c.lhs.folded(prime);
                let b = c.rhs.folded(prime);
                match (a, b) {
                    (IRAexpr::Constant(x), IRAexpr::Constant(y)) => {
                        if crate::ir::semantics::felt_op_holds(op, &x, &y) {
                            (IRStmt::empty(), Ok(()))
                        } else {
                            (
                                IRStmt::Constraint(Constraint::new(op, IRAexpr::Constant(x), IRAexpr::Constant(y))),
                                Err(FoldError::Unsatisfiable),
                            )
                        }
                    },
                    (a, b) => {
                        proof {
                            assert(!(a@ is Constant && b@ is Constant));
                        }
                        (IRStmt::Constraint(Constraint::new(op, a, b)), Ok(()))
                    },
                }
            },
            IRStmt::Comment(c) => (IRStmt::Comment(c), Ok(())),
            IRStmt::AssumeDeterministic(a) => (IRStmt::AssumeDeterministic(a), Ok(())),
            IRStmt::Assert(a) => {
                let y = a.0.folded(prime);
                match y {
                    IRBexpr::True => (IRStmt::empty(), Ok(())),
                    IRBexpr::False => (IRStmt::Assert(Assert(IRBexpr::False)), Err(FoldError::Unsatisfiable)),
                    y => {
                        proof {
                            assert(!(y@ is True) && !(y@ is False));
                        }
                        (IRStmt::Assert(Assert(y)), Ok(()))
                    },
                }
            },
            IRStmt::Sequence(q) => {
                proof {
                    assert(decreases_to!(self => q.0)) by {
                        assert(decreases_to!(q => q.0));
                    }
                }
                let (ys, res) = Self::fold_all(q.0, prime);
                (IRStmt::Sequence(StmtSeq(ys)), res)
            },
        }
    }

    fn fold_all(xs: Vec<IRStmt<IRAexpr>>, prime: &Felt) -> (r: (Vec<IRStmt<IRAexpr>>, Result<(), FoldError>))
        requires
            prime@ > 0,
        ensures
            r.1 is Ok <==> !(exists|i: int| #![trigger xs@[i]] 0 <= i < xs@.len() && stmt_unsat(xs@[i], prime@)),
            r.1 is Ok ==> r.0@.len() == xs@.len() && forall|i: int| #![trigger xs@[i]] 0 <= i < xs@.len()
                ==> stmt_folded(xs@[i], r.0@[i], prime@),
        decreases xs,
    {
        let ghost orig = xs;
        let mut stack = reverse_vec(xs);
        let mut out: Vec<IRStmt<IRAexpr>> = Vec::new();
        while stack.len() > 0
            invariant
                orig == xs,
                prime@ > 0,
                out@.len() + stack@.len() == orig@.len(),
                forall|k: int| 0 <= k < stack@.len() ==> stack@[k] == orig@[orig@.len() - 1 - k],
                forall|i: int| #![trigger orig@[i]] 0 <= i < out@.len() ==> !stmt_unsat(orig@[i], prime@)
                    && stmt_folded(orig@[i], out@[i], prime@),
            decreases stack@.len(),
        {
            let x = stack.pop().unwrap();
            let ghost idx = out@.len() as int;
            proof {
                assert(x == orig@[idx]);
                assert(decreases_to!(orig => orig@));
                assert(decreases_to!(orig@ => orig@[idx]));
            }
            let (y, res) = x.folded(prime);
            out.push(y);
            if res.is_err() {
                while stack.len() > 0
                    decreases stack@.len(),
                {
                    let z = stack.pop().unwrap();
                    out.push(z);
                }
                return (out, Err(FoldError::Unsatisfiable));
            }
        }
        (out, Ok(()))
    }

    /// Folds the statements if the expressions are constant, in the field of order `prime`.
    /// A constraint or assertion that folds into a tautology (such as `0 = 0`) is removed; if
    /// one folds into an unsatisfiable proposition the method returns an error.
    pub fn constant_fold(&mut self, prime: &Felt) -> (r: Result<(), FoldError>)
        requires
            prime@ > 0,
        ensures
            r is Ok <==> !stmt_unsat(*old(self), prime@),
            r is Ok ==> stmt_folded(*old(self), *final(self), prime@),
    {
        let mut tmp = IRStmt::empty();
        std::mem::swap(&mut tmp, self);
        let (t, res) = tmp.folded(prime);
        *self = t;
        res
    }

    /// The statement canonicalized as [`stmt_canon`] says.
    fn canonicalized(self) -> (r: IRStmt<IRAexpr>)
        ensures
            stmt_canon(self, r),
        decreases self,
    {
        match self {
            IRStmt::Constraint(c) => match canonicalize_constraint(c.op, &c.lhs, &c.rhs) {
                Some((o, a, b)) => IRStmt::Constraint(Constraint::new(o, a, b)),
                None => IRStmt::Constraint(c),
            },
            IRStmt::Assert(a) => IRStmt::Assert(Assert(a.0.canonicalized())),
            IRStmt::Sequence(q) => {
                proof {
                    assert(decreases_to!(self => q.0)) by {
                        assert(decreases_to!(q => q.0));
                    }
                }
                let ghost orig = q.0;
                let mut stack = reverse_vec(q.0);
                let mut out: Vec<IRStmt<IRAexpr>> = Vec::new();
                while stack.len() > 0
                    invariant
                        decreases_to!(self => orig),
                        out@.len() + stack@.len() == orig@.len(),
                        forall|k: int| 0 <= k < stack@.len() ==> stack@[k] == orig@[orig@.len() - 1 - k],
                        forall|i: int| #![trigger orig@[i]] 0 <= i < out@.len() ==> stmt_canon(orig@[i], out@[i]),
                    decreases stack@.len(),
                {
                    let x = stack.pop().unwrap();
                    let ghost idx = out@.len() as int;
                    proof {
                        assert(x == orig@[idx]);
                        assert(decreases_to!(orig => orig@));
                        assert(decreases_to!(orig@ => orig@[idx]));
                    }
                    out.push(x.canonicalized());
                }
                IRStmt::Sequence(StmtSeq(out))
            },
            s => s,
        }
    }

    /// Matches the statements against a series of known patterns and applies rewrites if able
    /// to, as [`stmt_canon`] says.
    pub fn canonicalize(&mut self)
        ensures
            stmt_canon(*old(self), *final(self)),
    {
        let mut tmp = IRStmt::empty();
        std::mem::swap(&mut tmp, self);
        *self = tmp.canonicalized();
    }
}

} // verus!

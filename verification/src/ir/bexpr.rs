//! Structs for handling boolean expressions.
use vstd::prelude::*;
use crate::ir::compare::{CmpOp, op_holds};
use crate::utils::reverse_vec;
use vstd::std_specs::cmp::PartialEqSpec;

verus! {

/// Represents boolean expressions over some arithmetic expression type A.
#[derive(Debug)]
pub enum IRBexpr<A> {
    /// Literal value for true.
    True,
    /// Literal value for false.
    False,
    /// Comparison operation of two inner arithmetic expressions.
    Cmp(CmpOp, A, A),
    /// Represents the conjunction of the inner expressions.
    And(Vec<IRBexpr<A>>),
    /// Represents the disjounction of the inner expressions.
    Or(Vec<IRBexpr<A>>),
    /// Represents the negation of the inner expression.
    Not(Box<IRBexpr<A>>),
}

/// Mathematical model of an [`IRBexpr`]: the inner lists are sequences.
pub enum Bexpr<A> {
    True,
    False,
    Cmp(CmpOp, A, A),
    And(Seq<Bexpr<A>>),
    Or(Seq<Bexpr<A>>),
    Not(Box<Bexpr<A>>),
}

/// The model of a boolean expression, with its leaves taken by their view.
pub open spec fn bexpr_view<A: View>(e: IRBexpr<A>) -> Bexpr<A::V>
    decreases e,
{
    match e {
        IRBexpr::True => Bexpr::True,
        IRBexpr::False => Bexpr::False,
        IRBexpr::Cmp(op, l, r) => Bexpr::Cmp(op, l@, r@),
        IRBexpr::And(xs) => Bexpr::And(
            Seq::new(
                xs@.len(),
                |i: int|
                    if 0 <= i < xs@.len() {
                        bexpr_view(xs@[i])
                    } else {
                        Bexpr::True
                    },
            ),
        ),
        IRBexpr::Or(xs) => Bexpr::Or(
            Seq::new(
                xs@.len(),
                |i: int|
                    if 0 <= i < xs@.len() {
                        bexpr_view(xs@[i])
                    } else {
                        Bexpr::True
                    },
            ),
        ),
        IRBexpr::Not(x) => Bexpr::Not(Box::new(bexpr_view(*x))),
    }
}

impl<A: View> View for IRBexpr<A> {
    type V = Bexpr<A::V>;

    open spec fn view(&self) -> Bexpr<A::V> {
        bexpr_view(*self)
    }
}

/// `r` has the shape of `e` and each leaf of `r` is related by `rel` to the leaf of `e` at
/// the same place.
pub open spec fn mapped<T, O>(e: IRBexpr<T>, r: IRBexpr<O>, rel: spec_fn(T, O) -> bool) -> bool
    decreases e,
{
    match e {
        IRBexpr::True => r is True,
        IRBexpr::False => r is False,
        IRBexpr::Cmp(op, a, b) => r matches IRBexpr::Cmp(op2, c, d) && op2 == op && rel(a, c)
            && rel(b, d),
        IRBexpr::And(xs) => r matches IRBexpr::And(ys) && ys@.len() == xs@.len() && forall|i: int|
            0 <= i < xs@.len() ==> mapped(#[trigger] xs@[i], ys@[i], rel),
        IRBexpr::Or(xs) => r matches IRBexpr::Or(ys) && ys@.len() == xs@.len() && forall|i: int|
            0 <= i < xs@.len() ==> mapped(#[trigger] xs@[i], ys@[i], rel),
        IRBexpr::Not(x) => r matches IRBexpr::Not(y) && mapped(*x, *y, rel),
    }
}

/// `r` has the shape of `e` and each leaf of `r` is either the leaf of `e` at the same place
/// or related to it by `rel`.
pub open spec fn mapped_or_kept<T>(e: IRBexpr<T>, r: IRBexpr<T>, rel: spec_fn(T, T) -> bool) -> bool
    decreases e,
{
    match e {
        IRBexpr::True => r is True,
        IRBexpr::False => r is False,
        IRBexpr::Cmp(op, a, b) => r matches IRBexpr::Cmp(op2, c, d) && op2 == op && (c == a
            || rel(a, c)) && (d == b || rel(b, d)),
        IRBexpr::And(xs) => r matches IRBexpr::And(ys) && ys@.len() == xs@.len() && forall|i: int|
            0 <= i < xs@.len() ==> mapped_or_kept(#[trigger] xs@[i], ys@[i], rel),
        IRBexpr::Or(xs) => r matches IRBexpr::Or(ys) && ys@.len() == xs@.len() && forall|i: int|
            0 <= i < xs@.len() ==> mapped_or_kept(#[trigger] xs@[i], ys@[i], rel),
        IRBexpr::Not(x) => r matches IRBexpr::Not(y) && mapped_or_kept(*x, *y, rel),
    }
}

/// Some leaf of `e` satisfies `pred`.
pub open spec fn has_leaf<T>(e: IRBexpr<T>, pred: spec_fn(T) -> bool) -> bool
    decreases e,
{
    match e {
        IRBexpr::True => false,
        IRBexpr::False => false,
        IRBexpr::Cmp(_, a, b) => pred(a) || pred(b),
        IRBexpr::And(xs) => exists|i: int| 0 <= i < xs@.len() && has_leaf(#[trigger] xs@[i], pred),
        IRBexpr::Or(xs) => exists|i: int| 0 <= i < xs@.len() && has_leaf(#[trigger] xs@[i], pred),
        IRBexpr::Not(x) => has_leaf(*x, pred),
    }
}

/// `f` may transform the leaf without error.
pub open spec fn leaf_ok<T, O, E, F: Fn(T) -> Result<O, E>>(a: T, f: F) -> bool {
    exists|o: O| f.ensures((a,), Ok::<O, E>(o))
}

/// `f` may transform every leaf of the expression without error.
pub open spec fn leaves_ok<T, O, E, F: Fn(T) -> Result<O, E>>(e: IRBexpr<T>, f: F) -> bool
    decreases e,
{
    match e {
        IRBexpr::True => true,
        IRBexpr::False => true,
        IRBexpr::Cmp(_, a, b) => leaf_ok::<T, O, E, F>(a, f) && leaf_ok::<T, O, E, F>(b, f),
        IRBexpr::And(xs) => forall|i: int| 0 <= i < xs@.len() ==> leaves_ok::<T, O, E, F>(#[trigger] xs@[i], f),
        IRBexpr::Or(xs) => forall|i: int| 0 <= i < xs@.len() ==> leaves_ok::<T, O, E, F>(#[trigger] xs@[i], f),
        IRBexpr::Not(x) => leaves_ok::<T, O, E, F>(*x, f),
    }
}

/// Transforming the leaves of the expression from left to right, `f` may give the error `err`
/// at some leaf after having transformed every leaf before it.
pub open spec fn fails_first<T, O, E, F: Fn(T) -> Result<O, E>>(e: IRBexpr<T>, f: F, err: E) -> bool
    decreases e,
{
    match e {
        IRBexpr::True => false,
        IRBexpr::False => false,
        IRBexpr::Cmp(_, a, b) => f.ensures((a,), Err::<O, E>(err)) || (leaf_ok::<T, O, E, F>(a, f) && f.ensures((b,), Err::<O, E>(err))),
        IRBexpr::And(xs) => exists|i: int| 0 <= i < xs@.len() && fails_first::<T, O, E, F>(#[trigger] xs@[i], f, err)
            && forall|j: int| 0 <= j < i ==> leaves_ok::<T, O, E, F>(#[trigger] xs@[j], f),
        IRBexpr::Or(xs) => exists|i: int| 0 <= i < xs@.len() && fails_first::<T, O, E, F>(#[trigger] xs@[i], f, err)
            && forall|j: int| 0 <= j < i ==> leaves_ok::<T, O, E, F>(#[trigger] xs@[j], f),
        IRBexpr::Not(x) => fails_first::<T, O, E, F>(*x, f, err),
    }
}

/// `f`, which reads its argument by reference, may transform the leaf without error.
pub open spec fn leaf_ok_ref<T, E, F: Fn(&T) -> Result<T, E>>(a: T, f: F) -> bool {
    exists|o: T| f.ensures((&a,), Ok::<T, E>(o))
}

/// `f`, which reads its argument by reference, may transform every leaf of the expression
/// without error.
pub open spec fn leaves_ok_ref<T, E, F: Fn(&T) -> Result<T, E>>(e: IRBexpr<T>, f: F) -> bool
    decreases e,
{
    match e {
        IRBexpr::True => true,
        IRBexpr::False => true,
        IRBexpr::Cmp(_, a, b) => leaf_ok_ref::<T, E, F>(a, f) && leaf_ok_ref::<T, E, F>(b, f),
        IRBexpr::And(xs) => forall|i: int| 0 <= i < xs@.len() ==> leaves_ok_ref::<T, E, F>(#[trigger] xs@[i], f),
        IRBexpr::Or(xs) => forall|i: int| 0 <= i < xs@.len() ==> leaves_ok_ref::<T, E, F>(#[trigger] xs@[i], f),
        IRBexpr::Not(x) => leaves_ok_ref::<T, E, F>(*x, f),
    }
}

/// Like [`fails_first`], for an `f` that reads its argument by reference.
pub open spec fn fails_first_ref<T, E, F: Fn(&T) -> Result<T, E>>(e: IRBexpr<T>, f: F, err: E) -> bool
    decreases e,
{
    match e {
        IRBexpr::True => false,
        IRBexpr::False => false,
        IRBexpr::Cmp(_, a, b) => f.ensures((&a,), Err::<T, E>(err)) || (leaf_ok_ref::<T, E, F>(a, f) && f.ensures((&b,), Err::<T, E>(err))),
        IRBexpr::And(xs) => exists|i: int| 0 <= i < xs@.len() && fails_first_ref::<T, E, F>(#[trigger] xs@[i], f, err)
            && forall|j: int| 0 <= j < i ==> leaves_ok_ref::<T, E, F>(#[trigger] xs@[j], f),
        IRBexpr::Or(xs) => exists|i: int| 0 <= i < xs@.len() && fails_first_ref::<T, E, F>(#[trigger] xs@[i], f, err)
            && forall|j: int| 0 <= j < i ==> leaves_ok_ref::<T, E, F>(#[trigger] xs@[j], f),
        IRBexpr::Not(x) => fails_first_ref::<T, E, F>(*x, f, err),
    }
}

/// The constant truth value of a model, if it is a literal.
pub open spec fn bconst<A>(e: Bexpr<A>) -> Option<bool> {
    match e {
        Bexpr::True => Some(true),
        Bexpr::False => Some(false),
        _ => None,
    }
}

/// The literal with the given truth value.
pub open spec fn from_bool<A>(b: bool) -> Bexpr<A> {
    if b {
        Bexpr::True
    } else {
        Bexpr::False
    }
}

/// What `a & b` builds: a conjunction that absorbs the conjunctions among its operands.
pub open spec fn conj<A>(a: Bexpr<A>, b: Bexpr<A>) -> Bexpr<A> {
    match (a, b) {
        (Bexpr::And(xs), Bexpr::And(ys)) => Bexpr::And(xs + ys),
        (x, Bexpr::And(ys)) => Bexpr::And(seq![x] + ys),
        (Bexpr::And(xs), y) => Bexpr::And(xs.push(y)),
        (x, y) => Bexpr::And(seq![x, y]),
    }
}

/// What `a | b` builds: a disjunction that absorbs the disjunctions among its operands.
pub open spec fn disj<A>(a: Bexpr<A>, b: Bexpr<A>) -> Bexpr<A> {
    match (a, b) {
        (Bexpr::Or(xs), Bexpr::Or(ys)) => Bexpr::Or(xs + ys),
        (x, Bexpr::Or(ys)) => Bexpr::Or(seq![x] + ys),
        (Bexpr::Or(xs), y) => Bexpr::Or(xs.push(y)),
        (x, y) => Bexpr::Or(seq![x, y]),
    }
}

/// What `!a` builds: a double negation is removed.
pub open spec fn neg<A>(a: Bexpr<A>) -> Bexpr<A> {
    match a {
        Bexpr::Not(x) => *x,
        x => Bexpr::Not(Box::new(x)),
    }
}

impl<T> IRBexpr<T> {
    /// Transforms the inner expression into a different type.
    pub fn map<O, F: Fn(T) -> O>(self, f: &F) -> (r: IRBexpr<O>)
        requires
            forall|t: T| f.requires((t,)),
        ensures
            mapped(self, r, |a: T, b: O| f.ensures((a,), b)),
        decreases self,
    {
        match self {
            IRBexpr::True => IRBexpr::True,
            IRBexpr::False => IRBexpr::False,
            IRBexpr::Cmp(op, a, b) => IRBexpr::Cmp(op, f(a), f(b)),
            IRBexpr::And(xs) => IRBexpr::And(Self::map_all(xs, f)),
            IRBexpr::Or(xs) => IRBexpr::Or(Self::map_all(xs, f)),
            IRBexpr::Not(x) => IRBexpr::Not(Box::new((*x).map(f))),
        }
    }

    fn map_all<O, F: Fn(T) -> O>(xs: Vec<IRBexpr<T>>, f: &F) -> (r: Vec<IRBexpr<O>>)
        requires
            forall|t: T| f.requires((t,)),
        ensures
            r@.len() == xs@.len(),
            forall|i: int|
                0 <= i < xs@.len() ==> mapped(
                    #[trigger] xs@[i],
                    r@[i],
                    |a: T, b: O| f.ensures((a,), b),
                ),
        decreases xs,
    {
        let ghost orig = xs;
        let mut stack = reverse_vec(xs);
        let mut out: Vec<IRBexpr<O>> = Vec::new();
        while stack.len() > 0
            invariant
                orig == xs,
                out@.len() + stack@.len() == orig@.len(),
                forall|k: int| 0 <= k < stack@.len() ==> stack@[k] == orig@[orig@.len() - 1 - k],
                forall|t: T| f.requires((t,)),
                forall|i: int|
                    0 <= i < out@.len() ==> mapped(
                        #[trigger] orig@[i],
                        out@[i],
                        |a: T, b: O| f.ensures((a,), b),
                    ),
            decreases stack@.len(),
        {
            let x = stack.pop().unwrap();
            proof {
                assert(x == orig@[out@.len() as int]);
                assert(decreases_to!(orig => orig@));
                assert(decreases_to!(orig@ => orig@[out@.len() as int]));
            }
            let y = x.map(f);
            out.push(y);
        }
        out
    }

    /// Transforms the inner expression into a different type without moving the struct.
    pub fn map_into<O, F: Fn(&T) -> O>(&self, f: &F) -> (r: IRBexpr<O>)
        requires
            forall|t: &T| f.requires((t,)),
        ensures
            mapped(*self, r, |a: T, b: O| f.ensures((&a,), b)),
        decreases self,
    {
        match self {
            IRBexpr::True => IRBexpr::True,
            IRBexpr::False => IRBexpr::False,
            IRBexpr::Cmp(op, a, b) => IRBexpr::Cmp(*op, f(a), f(b)),
            IRBexpr::And(xs) => IRBexpr::And(Self::map_into_all(xs, f)),
            IRBexpr::Or(xs) => IRBexpr::Or(Self::map_into_all(xs, f)),
            IRBexpr::Not(x) => IRBexpr::Not(Box::new(x.map_into(f))),
        }
    }

    fn map_into_all<O, F: Fn(&T) -> O>(xs: &Vec<IRBexpr<T>>, f: &F) -> (r: Vec<IRBexpr<O>>)
        requires
            forall|t: &T| f.requires((t,)),
        ensures
            r@.len() == xs@.len(),
            forall|i: int|
                0 <= i < xs@.len() ==> mapped(
                    #[trigger] xs@[i],
                    r@[i],
                    |a: T, b: O| f.ensures((&a,), b),
                ),
        decreases xs,
    {
        let mut out: Vec<IRBexpr<O>> = Vec::new();
        let mut i: usize = 0;
        while i < xs.len()
            invariant
                i <= xs@.len(),
                out@.len() == i,
                forall|t: &T| f.requires((t,)),
                forall|j: int|
                    0 <= j < i ==> mapped(
                        #[trigger] xs@[j],
                        out@[j],
                        |a: T, b: O| f.ensures((&a,), b),
                    ),
            decreases xs@.len() - i,
        {
            proof {
                assert(decreases_to!(xs => xs@));
                assert(decreases_to!(xs@ => xs@[i as int]));
            }
            let y = xs[i].map_into(f);
            out.push(y);
            i = i + 1;
        }
        out
    }

    /// Transforms the inner expression into a different type, potentially failing.
    ///
    /// The leaves are transformed from left to right and the first error is returned.
    pub fn try_map<O, E, F: Fn(T) -> Result<O, E>>(self, f: &F) -> (r: Result<IRBexpr<O>, E>)
        requires
            forall|t: T| f.requires((t,)),
        ensures
            r matches Ok(x) ==> mapped(self, x, |a: T, b: O| f.ensures((a,), Ok::<O, E>(b))),
            r matches Err(e) ==> has_leaf(self, |a: T| f.ensures((a,), Err::<O, E>(e))),
            r is Ok ==> leaves_ok::<T, O, E, F>(self, *f),
            r matches Err(e) ==> fails_first::<T, O, E, F>(self, *f, e),
            (forall|a: T, res: Result<O, E>| f.ensures((a,), res) ==> res is Ok) ==> r is Ok,
        decreases self,
    {
        match self {
            IRBexpr::True => Ok(IRBexpr::True),
            IRBexpr::False => Ok(IRBexpr::False),
            IRBexpr::Cmp(op, a, b) => match f(a) {
                Err(e) => Err(e),
                Ok(c) => match f(b) {
                    Err(e) => Err(e),
                    Ok(d) => Ok(IRBexpr::Cmp(op, c, d)),
                },
            },
            IRBexpr::And(xs) => Ok(IRBexpr::And(Self::try_map_all(xs, f)?)),
            IRBexpr::Or(xs) => Ok(IRBexpr::Or(Self::try_map_all(xs, f)?)),
            IRBexpr::Not(x) => Ok(IRBexpr::Not(Box::new((*x).try_map(f)?))),
        }
    }

    fn try_map_all<O, E, F: Fn(T) -> Result<O, E>>(xs: Vec<IRBexpr<T>>, f: &F) -> (r: Result<
        Vec<IRBexpr<O>>,
        E,
    >)
        requires
            forall|t: T| f.requires((t,)),
        ensures
            r matches Ok(ys) ==> ys@.len() == xs@.len() && forall|i: int|
                0 <= i < xs@.len() ==> mapped(
                    #[trigger] xs@[i],
                    ys@[i],
                    |a: T, b: O| f.ensures((a,), Ok::<O, E>(b)),
                ),
            r matches Err(e) ==> exists|i: int|
                0 <= i < xs@.len() && has_leaf(
                    #[trigger] xs@[i],
                    |a: T| f.ensures((a,), Err::<O, E>(e)),
                ),
            r is Ok ==> forall|i: int| 0 <= i < xs@.len() ==> leaves_ok::<T, O, E, F>(#[trigger] xs@[i], *f),
            r matches Err(e) ==> exists|i: int| 0 <= i < xs@.len() && fails_first::<T, O, E, F>(#[trigger] xs@[i], *f, e)
                && forall|j: int| 0 <= j < i ==> leaves_ok::<T, O, E, F>(#[trigger] xs@[j], *f),
            (forall|a: T, res: Result<O, E>| f.ensures((a,), res) ==> res is Ok) ==> r is Ok,
        decreases xs,
    {
        let ghost orig = xs;
        let mut stack = reverse_vec(xs);
        let mut out: Vec<IRBexpr<O>> = Vec::new();
        while stack.len() > 0
            invariant
                orig == xs,
                out@.len() + stack@.len() == orig@.len(),
                forall|k: int| 0 <= k < stack@.len() ==> stack@[k] == orig@[orig@.len() - 1 - k],
                forall|t: T| f.requires((t,)),
                forall|i: int|
                    0 <= i < out@.len() ==> mapped(
                        #[trigger] orig@[i],
                        out@[i],
                        |a: T, b: O| f.ensures((a,), Ok::<O, E>(b)),
                    ),
                forall|i: int| 0 <= i < out@.len() ==> leaves_ok::<T, O, E, F>(#[trigger] orig@[i], *f),
            decreases stack@.len(),
        {
            let x = stack.pop().unwrap();
            let ghost idx = out@.len() as int;
            proof {
                assert(x == orig@[idx]);
                assert(decreases_to!(orig => orig@));
                assert(decreases_to!(orig@ => orig@[idx]));
            }
            match x.try_map(f) {
                Ok(y) => out.push(y),
                Err(e) => {
                    proof {
                        assert(has_leaf(orig@[idx], |a: T| f.ensures((a,), Err::<O, E>(e))));
                        assert(fails_first::<T, O, E, F>(orig@[idx], *f, e));
                    }
                    return Err(e);
                },
            }
        }
        Ok(out)
    }

    /// Tries to transform the inner expressions in place instead of returning a new
    /// expression. Each leaf is replaced by what `f` computes from it, from left to right; at
    /// the first error the remaining leaves are kept as they are and the error is returned.
    pub fn try_map_inplace<E, F: Fn(&T) -> Result<T, E>>(&mut self, f: &F) -> (r: Result<(), E>)
        requires
            forall|t: &T| f.requires((t,)),
        ensures
            mapped_or_kept(*old(self), *final(self), |a: T, b: T| f.ensures((&a,), Ok::<T, E>(b))),
            r is Ok ==> mapped(*old(self), *final(self), |a: T, b: T| f.ensures((&a,), Ok::<T, E>(b))),
            r matches Err(e) ==> has_leaf(*old(self), |a: T| f.ensures((&a,), Err::<T, E>(e))),
            r matches Err(e) ==> fails_first_ref::<T, E, F>(*old(self), *f, e),
            r is Ok ==> leaves_ok_ref::<T, E, F>(*old(self), *f),
            (forall|a: &T, res: Result<T, E>| f.ensures((a,), res) ==> res is Ok) ==> r is Ok,
    {
        let mut tmp = IRBexpr::True;
        std::mem::swap(&mut tmp, self);
        let (t, err) = tmp.try_map_keep(f);
        *self = t;
        match err {
            Some(e) => Err(e),
            None => Ok(()),
        }
    }

    fn try_map_keep<E, F: Fn(&T) -> Result<T, E>>(self, f: &F) -> (r: (IRBexpr<T>, Option<E>))
        requires
            forall|t: &T| f.requires((t,)),
        ensures
            mapped_or_kept(self, r.0, |a: T, b: T| f.ensures((&a,), Ok::<T, E>(b))),
            r.1 is None ==> mapped(self, r.0, |a: T, b: T| f.ensures((&a,), Ok::<T, E>(b))),
            r.1 matches Some(e) ==> has_leaf(self, |a: T| f.ensures((&a,), Err::<T, E>(e))),
            r.1 is None ==> leaves_ok_ref::<T, E, F>(self, *f),
            r.1 matches Some(e) ==> fails_first_ref::<T, E, F>(self, *f, e),
            (forall|a: &T, res: Result<T, E>| f.ensures((a,), res) ==> res is Ok) ==> r.1 is None,
        decreases self,
    {
        match self {
            IRBexpr::True => (IRBexpr::True, None),
            IRBexpr::False => (IRBexpr::False, None),
            IRBexpr::Cmp(op, a, b) => {
                match f(&a) {
                    Ok(c) => match f(&b) {
                        Ok(d) => (IRBexpr::Cmp(op, c, d), None),
                        Err(e) => (IRBexpr::Cmp(op, c, b), Some(e)),
                    },
                    Err(e) => (IRBexpr::Cmp(op, a, b), Some(e)),
                }
            },
            IRBexpr::And(xs) => {
                let (ys, e) = Self::try_map_keep_all(xs, f);
                (IRBexpr::And(ys), e)
            },
            IRBexpr::Or(xs) => {
                let (ys, e) = Self::try_map_keep_all(xs, f);
                (IRBexpr::Or(ys), e)
            },
            IRBexpr::Not(x) => {
                let (y, e) = (*x).try_map_keep(f);
                (IRBexpr::Not(Box::new(y)), e)
            },
        }
    }

    fn try_map_keep_all<E, F: Fn(&T) -> Result<T, E>>(xs: Vec<IRBexpr<T>>, f: &F) -> (r: (
        Vec<IRBexpr<T>>,
        Option<E>,
    ))
        requires
            forall|t: &T| f.requires((t,)),
        ensures
            r.0@.len() == xs@.len(),
            forall|i: int|
                0 <= i < xs@.len() ==> mapped_or_kept(
                    #[trigger] xs@[i],
                    r.0@[i],
                    |a: T, b: T| f.ensures((&a,), Ok::<T, E>(b)),
                ),
            r.1 is None ==> forall|i: int|
                0 <= i < xs@.len() ==> mapped(
                    #[trigger] xs@[i],
                    r.0@[i],
                    |a: T, b: T| f.ensures((&a,), Ok::<T, E>(b)),
                ),
            r.1 matches Some(e) ==> exists|i: int|
                0 <= i < xs@.len() && has_leaf(
                    #[trigger] xs@[i],
                    |a: T| f.ensures((&a,), Err::<T, E>(e)),
                ),
            r.1 is None ==> forall|i: int| 0 <= i < xs@.len() ==> leaves_ok_ref::<T, E, F>(#[trigger] xs@[i], *f),
            r.1 matches Some(e) ==> exists|i: int| 0 <= i < xs@.len() && fails_first_ref::<T, E, F>(#[trigger] xs@[i], *f, e)
                && forall|j: int| 0 <= j < i ==> leaves_ok_ref::<T, E, F>(#[trigger] xs@[j], *f),
            (forall|a: &T, res: Result<T, E>| f.ensures((a,), res) ==> res is Ok) ==> r.1 is None,
        decreases xs,
    {
        let ghost orig = xs;
        let mut stack = reverse_vec(xs);
        let mut out: Vec<IRBexpr<T>> = Vec::new();
        let mut err: Option<E> = None;
        while stack.len() > 0
            invariant
                orig == xs,
                out@.len() + stack@.len() == orig@.len(),
                forall|k: int| 0 <= k < stack@.len() ==> stack@[k] == orig@[orig@.len() - 1 - k],
                forall|t: &T| f.requires((t,)),
                forall|i: int|
                    0 <= i < out@.len() ==> mapped_or_kept(
                        #[trigger] orig@[i],
                        out@[i],
                        |a: T, b: T| f.ensures((&a,), Ok::<T, E>(b)),
                    ),
                err is None ==> forall|i: int|
                    0 <= i < out@.len() ==> mapped(
                        #[trigger] orig@[i],
                        out@[i],
                        |a: T, b: T| f.ensures((&a,), Ok::<T, E>(b)),
                    ),
                err matches Some(e) ==> exists|i: int|
                    0 <= i < out@.len() && has_leaf(
                        #[trigger] orig@[i],
                        |a: T| f.ensures((&a,), Err::<T, E>(e)),
                    ),
                err is None ==> forall|i: int| 0 <= i < out@.len() ==> leaves_ok_ref::<T, E, F>(#[trigger] orig@[i], *f),
                err matches Some(e) ==> exists|i: int| 0 <= i < out@.len() && fails_first_ref::<T, E, F>(#[trigger] orig@[i], *f, e)
                    && forall|j: int| 0 <= j < i ==> leaves_ok_ref::<T, E, F>(#[trigger] orig@[j], *f),
                (forall|a: &T, res: Result<T, E>| f.ensures((a,), res) ==> res is Ok) ==> err is None,
            decreases stack@.len(),
        {
            let x = stack.pop().unwrap();
            let ghost idx = out@.len() as int;
            proof {
                assert(x == orig@[idx]);
                assert(decreases_to!(orig => orig@));
                assert(decreases_to!(orig@ => orig@[idx]));
            }
            if err.is_some() {
                proof {
                    lemma_mapped_or_kept_refl(x, |a: T, b: T| f.ensures((&a,), Ok::<T, E>(b)));
                }
                out.push(x);
            } else {
                let (y, e) = x.try_map_keep(f);
                out.push(y);
                err = e;
            }
        }
        (out, err)
    }
}

/// A relation between expressions holds of any weaker relation between their leaves.
pub proof fn lemma_mapped_weaken<T, O>(e: IRBexpr<T>, r: IRBexpr<O>, rel: spec_fn(T, O) -> bool, rel2: spec_fn(T, O) -> bool)
    requires
        mapped(e, r, rel),
        forall|a: T, b: O| #[trigger] rel(a, b) ==> rel2(a, b),
    ensures
        mapped(e, r, rel2),
    decreases e,
{
    match e {
        IRBexpr::And(xs) => {
            let ys = r->And_0;
            assert forall|i: int| 0 <= i < xs@.len() implies mapped(#[trigger] xs@[i], ys@[i], rel2) by {
                assert(decreases_to!(e => xs));
                lemma_mapped_weaken(xs@[i], ys@[i], rel, rel2);
            }
        },
        IRBexpr::Or(xs) => {
            let ys = r->Or_0;
            assert forall|i: int| 0 <= i < xs@.len() implies mapped(#[trigger] xs@[i], ys@[i], rel2) by {
                assert(decreases_to!(e => xs));
                lemma_mapped_weaken(xs@[i], ys@[i], rel, rel2);
            }
        },
        IRBexpr::Not(x) => {
            lemma_mapped_weaken(*x, *r->Not_0, rel, rel2);
        },
        _ => {},
    }
}

/// The relation of `a` to `c` through some `b`: `f` relates `a` to `b` and `g` relates `b`
/// to `c`.
pub open spec fn composed<T, U, V>(f: spec_fn(T, U) -> bool, g: spec_fn(U, V) -> bool) -> spec_fn(T, V) -> bool {
    |a: T, c: V| exists|b: U| #[trigger] f(a, b) && #[trigger] g(b, c)
}

/// Mapping twice is mapping once by the composed relation: what `map` gives from what `map`
/// gave has the shape of the first expression, each leaf related to the first expression's
/// through the intermediate one.
pub proof fn law_mapped_compose<T, U, V>(e: IRBexpr<T>, m: IRBexpr<U>, r: IRBexpr<V>, f: spec_fn(T, U) -> bool, g: spec_fn(U, V) -> bool)
    requires
        mapped(e, m, f),
        mapped(m, r, g),
    ensures
        mapped(e, r, composed(f, g)),
    decreases e,
{
    match e {
        IRBexpr::Cmp(_, a, b) => {
            let (c, d) = (m->Cmp_1, m->Cmp_2);
            assert(f(a, c) && g(c, r->Cmp_1));
            assert(f(b, d) && g(d, r->Cmp_2));
        },
        IRBexpr::And(xs) => {
            let ys = m->And_0;
            let zs = r->And_0;
            assert forall|i: int| 0 <= i < xs@.len() implies mapped(#[trigger] xs@[i], zs@[i], composed(f, g)) by {
                assert(decreases_to!(e => xs));
                assert(mapped(ys@[i], zs@[i], g));
                law_mapped_compose(xs@[i], ys@[i], zs@[i], f, g);
            }
        },
        IRBexpr::Or(xs) => {
            let ys = m->Or_0;
            let zs = r->Or_0;
            assert forall|i: int| 0 <= i < xs@.len() implies mapped(#[trigger] xs@[i], zs@[i], composed(f, g)) by {
                assert(decreases_to!(e => xs));
                assert(mapped(ys@[i], zs@[i], g));
                law_mapped_compose(xs@[i], ys@[i], zs@[i], f, g);
            }
        },
        IRBexpr::Not(x) => {
            law_mapped_compose(*x, *m->Not_0, *r->Not_0, f, g);
        },
        _ => {},
    }
}

/// Mapping by a relation that is a function gives one expression only: two expressions that
/// both map `e` by it are structurally equal (they map to each other by equality of leaves).
pub proof fn law_mapped_by_function<T, U>(e: IRBexpr<T>, x: IRBexpr<U>, y: IRBexpr<U>, rel: spec_fn(T, U) -> bool)
    requires
        forall|a: T, b: U, c: U| #[trigger] rel(a, b) && #[trigger] rel(a, c) ==> b == c,
        mapped(e, x, rel),
        mapped(e, y, rel),
    ensures
        mapped(x, y, |a: U, b: U| a == b),
    decreases e,
{
    match e {
        IRBexpr::And(xs) => {
            let (xa, ya) = (x->And_0, y->And_0);
            assert forall|i: int| 0 <= i < xa@.len() implies mapped(#[trigger] xa@[i], ya@[i], |a: U, b: U| a == b) by {
                assert(decreases_to!(e => xs));
                assert(mapped(xs@[i], xa@[i], rel));
                assert(mapped(xs@[i], ya@[i], rel));
                law_mapped_by_function(xs@[i], xa@[i], ya@[i], rel);
            }
        },
        IRBexpr::Or(xs) => {
            let (xa, ya) = (x->Or_0, y->Or_0);
            assert forall|i: int| 0 <= i < xa@.len() implies mapped(#[trigger] xa@[i], ya@[i], |a: U, b: U| a == b) by {
                assert(decreases_to!(e => xs));
                assert(mapped(xs@[i], xa@[i], rel));
                assert(mapped(xs@[i], ya@[i], rel));
                law_mapped_by_function(xs@[i], xa@[i], ya@[i], rel);
            }
        },
        IRBexpr::Not(z) => {
            law_mapped_by_function(*z, *x->Not_0, *y->Not_0, rel);
        },
        _ => {},
    }
}

/// Mapping by `f` and then by `g` maps by the function `g` after `f`, and gives the same
/// expression, structurally, as mapping once by the composed function.
pub proof fn law_map_compose_functions<T, U, V>(
    e: IRBexpr<T>,
    m: IRBexpr<U>,
    r: IRBexpr<V>,
    once: IRBexpr<V>,
    f: spec_fn(T) -> U,
    g: spec_fn(U) -> V,
)
    requires
        mapped(e, m, |a: T, b: U| b == f(a)),
        mapped(m, r, |b: U, c: V| c == g(b)),
        mapped(e, once, |a: T, c: V| c == g(f(a))),
    ensures
        mapped(e, r, |a: T, c: V| c == g(f(a))),
        mapped(r, once, |a: V, b: V| a == b),
{
    law_mapped_compose(e, m, r, |a: T, b: U| b == f(a), |b: U, c: V| c == g(b));
    lemma_mapped_weaken(e, r, composed(|a: T, b: U| b == f(a), |b: U, c: V| c == g(b)), |a: T, c: V| c == g(f(a)));
    law_mapped_by_function(e, r, once, |a: T, c: V| c == g(f(a)));
}

/// Every expression is related to itself by [`mapped_or_kept`].
pub proof fn lemma_mapped_or_kept_refl<T>(e: IRBexpr<T>, rel: spec_fn(T, T) -> bool)
    ensures
        mapped_or_kept(e, e, rel),
    decreases e,
{
    match e {
        IRBexpr::And(xs) => {
            assert forall|i: int| 0 <= i < xs@.len() implies mapped_or_kept(
                #[trigger] xs@[i],
                xs@[i],
                rel,
            ) by {
                assert(decreases_to!(e => xs));
                lemma_mapped_or_kept_refl(xs@[i], rel);
            }
        },
        IRBexpr::Or(xs) => {
            assert forall|i: int| 0 <= i < xs@.len() implies mapped_or_kept(
                #[trigger] xs@[i],
                xs@[i],
                rel,
            ) by {
                assert(decreases_to!(e => xs));
                lemma_mapped_or_kept_refl(xs@[i], rel);
            }
        },
        IRBexpr::Not(x) => {
            lemma_mapped_or_kept_refl(*x, rel);
        },
        _ => {},
    }
}

/// The models of a list of boolean expressions.
pub open spec fn views<A: View>(xs: Seq<IRBexpr<A>>) -> Seq<Bexpr<A::V>> {
    Seq::new(xs.len(), |i: int| xs[i]@)
}

/// The model of a conjunction or disjunction is built from the models of its elements.
pub proof fn lemma_list_view<A: View>(xs: Vec<IRBexpr<A>>)
    ensures
        IRBexpr::And(xs)@ == Bexpr::And(views(xs@)),
        IRBexpr::Or(xs)@ == Bexpr::Or(views(xs@)),
{
    let a = IRBexpr::And(xs);
    let o = IRBexpr::Or(xs);
    assert(a is And && a->And_0 == xs);
    assert(o is Or && o->Or_0 == xs);
    assert(a@->And_0 =~= views(xs@));
    assert(o@->Or_0 =~= views(xs@));
}

impl<A: View> IRBexpr<A> {
    /// The literal with the given truth value.
    pub fn literal(b: bool) -> (r: IRBexpr<A>)
        ensures
            r@ == from_bool::<A::V>(b),
    {
        if b {
            IRBexpr::True
        } else {
            IRBexpr::False
        }
    }

    /// Returns `Some(true)` or `Some(false)` if the expression is constant, `None` otherwise.
    pub fn const_value(&self) -> (r: Option<bool>)
        ensures
            r == bconst(self@),
    {
        match self {
            IRBexpr::True => Some(true),
            IRBexpr::False => Some(false),
            _ => None,
        }
    }

    /// Whether the expression is the literal `True`.
    pub fn is_true(&self) -> (r: bool)
        ensures
            r == (self@ is True),
    {
        match self {
            IRBexpr::True => true,
            _ => false,
        }
    }
}

impl<A: View> IRBexpr<A> {
    /// The conjunction of two expressions; conjunctions among the operands are absorbed, so
    /// `(a & b) & c` is the conjunction of `a`, `b` and `c`.
    pub fn and(self, rhs: IRBexpr<A>) -> (r: IRBexpr<A>)
        ensures
            r@ == conj(self@, rhs@),
    {
        proof {
            if self is And {
                lemma_list_view(self->And_0);
            }
            if rhs is And {
                lemma_list_view(rhs->And_0);
            }
        }
        let ghost (a, b) = (self@, rhs@);
        let mut out: Vec<IRBexpr<A>> = Vec::new();
        match self {
            IRBexpr::And(mut xs) => out.append(&mut xs),
            x => out.push(x),
        }
        match rhs {
            IRBexpr::And(mut ys) => out.append(&mut ys),
            y => out.push(y),
        }
        let r = IRBexpr::And(out);
        proof {
            lemma_list_view(out);
            assert(views(out@) =~= conj(a, b)->And_0);
        }
        r
    }

    /// The disjunction of two expressions; disjunctions among the operands are absorbed.
    pub fn or(self, rhs: IRBexpr<A>) -> (r: IRBexpr<A>)
        ensures
            r@ == disj(self@, rhs@),
    {
        proof {
            if self is Or {
                lemma_list_view(self->Or_0);
            }
            if rhs is Or {
                lemma_list_view(rhs->Or_0);
            }
        }
        let ghost (a, b) = (self@, rhs@);
        let mut out: Vec<IRBexpr<A>> = Vec::new();
        match self {
            IRBexpr::Or(mut xs) => out.append(&mut xs),
            x => out.push(x),
        }
        match rhs {
            IRBexpr::Or(mut ys) => out.append(&mut ys),
            y => out.push(y),
        }
        let r = IRBexpr::Or(out);
        proof {
            lemma_list_view(out);
            assert(views(out@) =~= disj(a, b)->Or_0);
        }
        r
    }

    /// The negation of an expression; a double negation is removed.
    pub fn not(self) -> (r: IRBexpr<A>)
        ensures
            r@ == neg(self@),
    {
        match self {
            IRBexpr::Not(e) => *e,
            e => IRBexpr::Not(Box::new(e)),
        }
    }
}

impl<A: View> core::ops::BitAnd for IRBexpr<A> {
    type Output = IRBexpr<A>;

    /// `a & b` is [`IRBexpr::and`].
    fn bitand(self, rhs: IRBexpr<A>) -> (r: IRBexpr<A>)
        ensures
            r@ == conj(self@, rhs@),
    {
        self.and(rhs)
    }
}

impl<A: View> vstd::std_specs::ops::BitAndSpecImpl for IRBexpr<A> {
    /// No spec function builds the vector of operands; what `&` gives is stated on `bitand`.
    open spec fn obeys_bitand_spec() -> bool {
        false
    }

    open spec fn bitand_req(self, rhs: IRBexpr<A>) -> bool {
        true
    }

    open spec fn bitand_spec(self, rhs: IRBexpr<A>) -> IRBexpr<A> {
        arbitrary()
    }
}

impl<A: View> core::ops::BitOr for IRBexpr<A> {
    type Output = IRBexpr<A>;

    /// `a | b` is [`IRBexpr::or`].
    fn bitor(self, rhs: IRBexpr<A>) -> (r: IRBexpr<A>)
        ensures
            r@ == disj(self@, rhs@),
    {
        self.or(rhs)
    }
}

impl<A: View> vstd::std_specs::ops::BitOrSpecImpl for IRBexpr<A> {
    /// No spec function builds the vector of operands; what `|` gives is stated on `bitor`.
    open spec fn obeys_bitor_spec() -> bool {
        false
    }

    open spec fn bitor_req(self, rhs: IRBexpr<A>) -> bool {
        true
    }

    open spec fn bitor_spec(self, rhs: IRBexpr<A>) -> IRBexpr<A> {
        arbitrary()
    }
}

impl<A: View> core::ops::Not for IRBexpr<A> {
    type Output = IRBexpr<A>;

    /// `!a` is [`IRBexpr::not`].
    fn not(self) -> (r: IRBexpr<A>)
        ensures
            r@ == neg(self@),
    {
        IRBexpr::<A>::not(self)
    }
}

impl<A: View> vstd::std_specs::ops::NotSpecImpl for IRBexpr<A> {
    /// What `!` gives is stated on `not`.
    open spec fn obeys_not_spec() -> bool {
        false
    }

    open spec fn not_req(self) -> bool {
        true
    }

    open spec fn not_spec(self) -> IRBexpr<A> {
        arbitrary()
    }
}

/// What `==` computes on boolean expressions: the same shape with equal leaves, where the
/// literal `True` equals itself and the literal `False` equals nothing.
pub open spec fn bexpr_eq<T: PartialEq>(a: IRBexpr<T>, b: IRBexpr<T>) -> bool
    decreases a,
{
    match (a, b) {
        (IRBexpr::Cmp(o1, l1, r1), IRBexpr::Cmp(o2, l2, r2)) => o1 == o2 && l1.eq_spec(&l2)
            && r1.eq_spec(&r2),
        (IRBexpr::And(xs), IRBexpr::And(ys)) => xs@.len() == ys@.len() && forall|i: int|
            #![trigger xs@[i]]
            0 <= i < xs@.len() ==> bexpr_eq(xs@[i], ys@[i]),
        (IRBexpr::Or(xs), IRBexpr::Or(ys)) => xs@.len() == ys@.len() && forall|i: int|
            #![trigger xs@[i]]
            0 <= i < xs@.len() ==> bexpr_eq(xs@[i], ys@[i]),
        (IRBexpr::Not(x), IRBexpr::Not(y)) => bexpr_eq(*x, *y),
        (IRBexpr::True, IRBexpr::True) => true,
        _ => false,
    }
}

impl<T: PartialEq> IRBexpr<T> {
    /// Elementwise comparison of two lists.
    fn eq_list(xs: &Vec<IRBexpr<T>>, ys: &Vec<IRBexpr<T>>) -> (r: bool)
        ensures
            T::obeys_eq_spec() ==> r == (xs@.len() == ys@.len() && forall|i: int|
                #![trigger xs@[i]]
                0 <= i < xs@.len() ==> bexpr_eq(xs@[i], ys@[i])),
        decreases xs,
    {
        if xs.len() != ys.len() {
            return false;
        }
        let mut i: usize = 0;
        while i < xs.len()
            invariant
                xs@.len() == ys@.len(),
                i <= xs@.len(),
                T::obeys_eq_spec() ==> forall|j: int| #![trigger xs@[j]] 0 <= j < i ==> bexpr_eq(xs@[j], ys@[j]),
            decreases xs@.len() - i,
        {
            proof {
                assert(decreases_to!(xs => xs@));
                assert(decreases_to!(xs@ => xs@[i as int]));
            }
            if !xs[i].eq_expr(&ys[i]) {
                return false;
            }
            i = i + 1;
        }
        true
    }

    /// What `==` computes, as [`bexpr_eq`] says.
    pub fn eq_expr(&self, other: &IRBexpr<T>) -> (r: bool)
        ensures
            T::obeys_eq_spec() ==> r == bexpr_eq(*self, *other),
        decreases self,
    {
        match (self, other) {
            (IRBexpr::Cmp(o1, l1, r1), IRBexpr::Cmp(o2, l2, r2)) => *o1 == *o2 && l1 == l2 && r1
                == r2,
            (IRBexpr::And(xs), IRBexpr::And(ys)) => Self::eq_list(xs, ys),
            (IRBexpr::Or(xs), IRBexpr::Or(ys)) => Self::eq_list(xs, ys),
            (IRBexpr::Not(x), IRBexpr::Not(y)) => (**x).eq_expr(&**y),
            (IRBexpr::True, IRBexpr::True) => true,
            _ => false,
        }
    }
}

impl<T: PartialEq> PartialEq for IRBexpr<T> {
    fn eq(&self, other: &IRBexpr<T>) -> (r: bool) {
        self.eq_expr(other)
    }
}

impl<T: PartialEq> vstd::std_specs::cmp::PartialEqSpecImpl for IRBexpr<T> {
    open spec fn obeys_eq_spec() -> bool {
        T::obeys_eq_spec()
    }

    open spec fn eq_spec(&self, other: &IRBexpr<T>) -> bool {
        bexpr_eq(*self, *other)
    }
}

} // verus!

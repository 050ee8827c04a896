//! A view of a lifted expression, compared by structure.
use vstd::prelude::*;
use vstd::std_specs::cmp::PartialEqSpec;
use super::inner::LiftInner;

verus! {

/// Structural equality of two expressions: the same operations on equal sides, equal
/// constants (by their `==`), and lifted values of the same identifier whose values are both
/// known and equal. A lifted value whose value is unknown, and a conditional selection, equal
/// nothing, not even themselves.
pub open spec fn lift_eq<F: PartialEq>(a: LiftInner<F>, b: LiftInner<F>) -> bool
    decreases a,
{
    match (a, b) {
        (LiftInner::Const(x), LiftInner::Const(y)) => x.eq_spec(&y),
        (LiftInner::Lift(i1, f1), LiftInner::Lift(i2, f2)) => i1 == i2 && match (f1, f2) {
            (Some(x), Some(y)) => x.eq_spec(&y),
            _ => false,
        },
        (LiftInner::Add(l1, r1), LiftInner::Add(l2, r2)) => lift_eq(*l1, *l2) && lift_eq(*r1, *r2),
        (LiftInner::Sub(l1, r1), LiftInner::Sub(l2, r2)) => lift_eq(*l1, *l2) && lift_eq(*r1, *r2),
        (LiftInner::Mul(l1, r1), LiftInner::Mul(l2, r2)) => lift_eq(*l1, *l2) && lift_eq(*r1, *r2),
        (LiftInner::Neg(x), LiftInner::Neg(y)) => lift_eq(*x, *y),
        (LiftInner::Square(x), LiftInner::Square(y)) => lift_eq(*x, *y),
        (LiftInner::Double(x), LiftInner::Double(y)) => lift_eq(*x, *y),
        (LiftInner::Invert(x), LiftInner::Invert(y)) => lift_eq(*x, *y),
        (LiftInner::SqrtRatio(l1, r1), LiftInner::SqrtRatio(l2, r2)) => lift_eq(*l1, *l2) && lift_eq(*r1, *r2),
        _ => false,
    }
}

/// The expression holds no conditional selection and no lifted value whose value is unknown:
/// the expressions that [`lift_eq`] finds equal to themselves.
pub open spec fn self_comparable<F>(a: LiftInner<F>) -> bool
    decreases a,
{
    match a {
        LiftInner::Const(_) => true,
        LiftInner::Lift(_, f) => f is Some,
        LiftInner::Add(l, r) | LiftInner::Sub(l, r) | LiftInner::Mul(l, r) | LiftInner::SqrtRatio(l, r) =>
            self_comparable(*l) && self_comparable(*r),
        LiftInner::Neg(x) | LiftInner::Square(x) | LiftInner::Double(x) | LiftInner::Invert(x) => self_comparable(*x),
        LiftInner::CondSelect(_, _, _) => false,
    }
}

/// Structural equality is symmetric and transitive wherever the equality of the field elements
/// is, and reflexive on the expressions that hold no conditional selection and no lifted value
/// whose value is unknown.
pub proof fn law_lift_eq_equivalence<F: PartialEq>(a: LiftInner<F>, b: LiftInner<F>, c: LiftInner<F>)
    requires
        forall|x: F| #[trigger] x.eq_spec(&x),
        forall|x: F, y: F| #[trigger] x.eq_spec(&y) ==> y.eq_spec(&x),
        forall|x: F, y: F, z: F| #[trigger] x.eq_spec(&y) && #[trigger] y.eq_spec(&z) ==> x.eq_spec(&z),
    ensures
        self_comparable(a) <==> lift_eq(a, a),
        lift_eq(a, b) ==> lift_eq(b, a),
        lift_eq(a, b) && lift_eq(b, c) ==> lift_eq(a, c),
    decreases a,
{
    match a {
        LiftInner::Const(_) => {},
        LiftInner::Lift(_, _) => {},
        LiftInner::Add(l, r) | LiftInner::Sub(l, r) | LiftInner::Mul(l, r) | LiftInner::SqrtRatio(l, r)
        => {
            match (b, c) {
                (LiftInner::Add(lb, rb), LiftInner::Add(lc, rc)) | (LiftInner::Sub(lb, rb), LiftInner::Sub(lc, rc))
                | (LiftInner::Mul(lb, rb), LiftInner::Mul(lc, rc)) | (LiftInner::SqrtRatio(lb, rb), LiftInner::SqrtRatio(lc, rc)) => {
                    law_lift_eq_equivalence(*l, *lb, *lc);
                    law_lift_eq_equivalence(*r, *rb, *rc);
                },
                _ => {
                    law_lift_eq_equivalence(*l, *l, *l);
                    law_lift_eq_equivalence(*r, *r, *r);
                    match b {
                        LiftInner::Add(lb, rb) | LiftInner::Sub(lb, rb) | LiftInner::Mul(lb, rb)
                        | LiftInner::SqrtRatio(lb, rb) => {
                            law_lift_eq_equivalence(*l, *lb, *lb);
                            law_lift_eq_equivalence(*r, *rb, *rb);
                        },
                        _ => {},
                    }
                },
            }
        },
        LiftInner::CondSelect(_, _, _) => {},
        LiftInner::Neg(x) | LiftInner::Square(x) | LiftInner::Double(x) | LiftInner::Invert(x) => {
            match (b, c) {
                (LiftInner::Neg(y), LiftInner::Neg(z)) | (LiftInner::Square(y), LiftInner::Square(z))
                | (LiftInner::Double(y), LiftInner::Double(z)) | (LiftInner::Invert(y), LiftInner::Invert(z)) => {
                    law_lift_eq_equivalence(*x, *y, *z);
                },
                _ => {
                    law_lift_eq_equivalence(*x, *x, *x);
                    match b {
                        LiftInner::Neg(y) | LiftInner::Square(y) | LiftInner::Double(y) | LiftInner::Invert(y) => {
                            law_lift_eq_equivalence(*x, *y, *y);
                        },
                        _ => {},
                    }
                },
            }
        },
    }
}

/// A view of an expression.
#[derive(Debug)]
pub struct Unwrapped<'a, F> {
    inner: &'a LiftInner<F>,
}

impl<'a, F: Copy> Unwrapped<'a, F> {
    /// The expression viewed.
    pub closed spec fn inner(&self) -> &'a LiftInner<F> {
        self.inner
    }

    /// A view of the expression.
    pub fn new(inner: &'a LiftInner<F>) -> (r: Self)
        ensures
            r.inner() == inner,
    {
        Unwrapped { inner }
    }

    /// A copy of the expression, in a box.
    pub fn boxed(&self) -> (r: Box<LiftInner<F>>)
        ensures
            *r == *self.inner(),
    {
        Box::new(self.inner.duplicate())
    }
}

impl<'a, F: Copy + PartialEq> Unwrapped<'a, F> {
    /// Structural equality, as [`lift_eq`] says.
    fn eq_impl(a: &LiftInner<F>, b: &LiftInner<F>) -> (r: bool)
        ensures
            F::obeys_eq_spec() ==> r == lift_eq(*a, *b),
        decreases a,
    {
        match (a, b) {
            (LiftInner::Const(x), LiftInner::Const(y)) => *x == *y,
            (LiftInner::Lift(i1, f1), LiftInner::Lift(i2, f2)) => *i1 == *i2 && match (f1, f2) {
                (Some(x), Some(y)) => *x == *y,
                _ => false,
            },
            (LiftInner::Add(l1, r1), LiftInner::Add(l2, r2)) => Self::eq_impl(&**l1, &**l2) && Self::eq_impl(&**r1, &**r2),
            (LiftInner::Sub(l1, r1), LiftInner::Sub(l2, r2)) => Self::eq_impl(&**l1, &**l2) && Self::eq_impl(&**r1, &**r2),
            (LiftInner::Mul(l1, r1), LiftInner::Mul(l2, r2)) => Self::eq_impl(&**l1, &**l2) && Self::eq_impl(&**r1, &**r2),
            (LiftInner::Neg(x), LiftInner::Neg(y)) => Self::eq_impl(&**x, &**y),
            (LiftInner::Square(x), LiftInner::Square(y)) => Self::eq_impl(&**x, &**y),
            (LiftInner::Double(x), LiftInner::Double(y)) => Self::eq_impl(&**x, &**y),
            (LiftInner::Invert(x), LiftInner::Invert(y)) => Self::eq_impl(&**x, &**y),
            (LiftInner::SqrtRatio(l1, r1), LiftInner::SqrtRatio(l2, r2)) => Self::eq_impl(&**l1, &**l2) && Self::eq_impl(&**r1, &**r2),
            _ => {
                proof {
                    assert(!lift_eq(*a, *b)) by {
                        match (a, b) {
                            (LiftInner::Const(_), _) => {},
                            (LiftInner::Lift(_, _), _) => {},
                            (LiftInner::Add(_, _), _) => {},
                            (LiftInner::Sub(_, _), _) => {},
                            (LiftInner::Mul(_, _), _) => {},
                            (LiftInner::Neg(_), _) => {},
                            (LiftInner::Square(_), _) => {},
                            (LiftInner::Double(_), _) => {},
                            (LiftInner::Invert(_), _) => {},
                            (LiftInner::SqrtRatio(_, _), _) => {},
                            (LiftInner::CondSelect(_, _, _), _) => {},
                        }
                    }
                }
                false
            },
        }
    }
}

impl<'a, F: Copy + PartialEq> PartialEq for Unwrapped<'a, F> {
    fn eq(&self, other: &Unwrapped<'a, F>) -> (r: bool) {
        Self::eq_impl(self.inner, other.inner)
    }
}

impl<'a, F: Copy + PartialEq> vstd::std_specs::cmp::PartialEqSpecImpl for Unwrapped<'a, F> {
    open spec fn obeys_eq_spec() -> bool {
        F::obeys_eq_spec()
    }

    /// Structural equality of the expressions viewed (see [`lift_eq`]).
    open spec fn eq_spec(&self, other: &Unwrapped<'a, F>) -> bool {
        lift_eq(*self.inner(), *other.inner())
    }
}

} // verus!

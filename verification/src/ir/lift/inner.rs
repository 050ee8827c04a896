//! The expressions that lifted field values are made of.
use vstd::prelude::*;
use super::unwrapped::Unwrapped;
use super::value_ref;

verus! {

/// An expression over field constants and lifted values.
#[derive(Debug)]
pub enum LiftInner<F> {
    /// A constant.
    Const(F),
    /// A lifted value, by its identifier, with its value if it is known.
    Lift(usize, Option<F>),
    /// Sum.
    Add(Box<LiftInner<F>>, Box<LiftInner<F>>),
    /// Difference.
    Sub(Box<LiftInner<F>>, Box<LiftInner<F>>),
    /// Product.
    Mul(Box<LiftInner<F>>, Box<LiftInner<F>>),
    /// Opposite.
    Neg(Box<LiftInner<F>>),
    /// Square.
    Square(Box<LiftInner<F>>),
    /// Double.
    Double(Box<LiftInner<F>>),
    /// Inverse.
    Invert(Box<LiftInner<F>>),
    /// Square root of a ratio.
    SqrtRatio(Box<LiftInner<F>>, Box<LiftInner<F>>),
    /// The first expression when the condition holds, else the second.
    CondSelect(bool, Box<LiftInner<F>>, Box<LiftInner<F>>),
}

/// The shape of an expression: its operations and lifted values, with the values of its
/// constants left out.
pub enum LiftShape<F> {
    Const,
    Lift(usize, Option<F>),
    Add(Box<LiftShape<F>>, Box<LiftShape<F>>),
    Sub(Box<LiftShape<F>>, Box<LiftShape<F>>),
    Mul(Box<LiftShape<F>>, Box<LiftShape<F>>),
    Neg(Box<LiftShape<F>>),
    Square(Box<LiftShape<F>>),
    Double(Box<LiftShape<F>>),
    Invert(Box<LiftShape<F>>),
    SqrtRatio(Box<LiftShape<F>>, Box<LiftShape<F>>),
    CondSelect(bool, Box<LiftShape<F>>, Box<LiftShape<F>>),
}

/// The shape of the expression.
pub open spec fn shape_of<F>(e: LiftInner<F>) -> LiftShape<F>
    decreases e,
{
    match e {
        LiftInner::Const(_) => LiftShape::Const,
        LiftInner::Lift(id, v) => LiftShape::Lift(id, v),
        LiftInner::Add(l, r) => LiftShape::Add(Box::new(shape_of(*l)), Box::new(shape_of(*r))),
        LiftInner::Sub(l, r) => LiftShape::Sub(Box::new(shape_of(*l)), Box::new(shape_of(*r))),
        LiftInner::Mul(l, r) => LiftShape::Mul(Box::new(shape_of(*l)), Box::new(shape_of(*r))),
        LiftInner::Neg(x) => LiftShape::Neg(Box::new(shape_of(*x))),
        LiftInner::Square(x) => LiftShape::Square(Box::new(shape_of(*x))),
        LiftInner::Double(x) => LiftShape::Double(Box::new(shape_of(*x))),
        LiftInner::Invert(x) => LiftShape::Invert(Box::new(shape_of(*x))),
        LiftInner::SqrtRatio(l, r) => LiftShape::SqrtRatio(Box::new(shape_of(*l)), Box::new(shape_of(*r))),
        LiftInner::CondSelect(c, l, r) => LiftShape::CondSelect(c, Box::new(shape_of(*l)), Box::new(shape_of(*r))),
    }
}

/// Whether a lifted value occurs in the expression, on either side of a conditional
/// selection.
pub open spec fn has_lift<F>(e: LiftInner<F>) -> bool
    decreases e,
{
    match e {
        LiftInner::Const(_) => false,
        LiftInner::Lift(_, _) => true,
        LiftInner::Add(l, r) => has_lift(*l) || has_lift(*r),
        LiftInner::Sub(l, r) => has_lift(*l) || has_lift(*r),
        LiftInner::Mul(l, r) => has_lift(*l) || has_lift(*r),
        LiftInner::Neg(x) => has_lift(*x),
        LiftInner::Square(x) => has_lift(*x),
        LiftInner::Double(x) => has_lift(*x),
        LiftInner::Invert(x) => has_lift(*x),
        LiftInner::SqrtRatio(l, r) => has_lift(*l) || has_lift(*r),
        LiftInner::CondSelect(_, l, r) => has_lift(*l) || has_lift(*r),
    }
}

impl<F: Copy> LiftInner<F> {
    /// The expression in a box.
    pub fn boxed(self) -> (r: Box<Self>)
        ensures
            *r == self,
    {
        Box::new(self)
    }

    /// A copy of the expression.
    pub fn duplicate(&self) -> (r: Self)
        ensures
            r == *self,
        decreases self,
    {
        match self {
            LiftInner::Const(f) => LiftInner::Const(*f),
            LiftInner::Lift(id, v) => LiftInner::Lift(*id, *v),
            LiftInner::Add(l, r) => LiftInner::Add((**l).duplicate().boxed(), (**r).duplicate().boxed()),
            LiftInner::Sub(l, r) => LiftInner::Sub((**l).duplicate().boxed(), (**r).duplicate().boxed()),
            LiftInner::Mul(l, r) => LiftInner::Mul((**l).duplicate().boxed(), (**r).duplicate().boxed()),
            LiftInner::Neg(x) => LiftInner::Neg((**x).duplicate().boxed()),
            LiftInner::Square(x) => LiftInner::Square((**x).duplicate().boxed()),
            LiftInner::Double(x) => LiftInner::Double((**x).duplicate().boxed()),
            LiftInner::Invert(x) => LiftInner::Invert((**x).duplicate().boxed()),
            LiftInner::SqrtRatio(l, r) => LiftInner::SqrtRatio((**l).duplicate().boxed(), (**r).duplicate().boxed()),
            LiftInner::CondSelect(c, l, r) => LiftInner::CondSelect(*c, (**l).duplicate().boxed(), (**r).duplicate().boxed()),
        }
    }

    /// A lifted value of unknown value, with the given identifier.
    pub fn lift(id: usize) -> (r: Self)
        ensures
            r == LiftInner::<F>::Lift(id, None),
    {
        LiftInner::Lift(id, None)
    }

    /// A lifted value of known value, with the given identifier.
    pub fn lift_value(id: usize, f: F) -> (r: Self)
        ensures
            r == LiftInner::Lift(id, Some(f)),
    {
        LiftInner::Lift(id, Some(f))
    }

    /// A constant.
    pub fn constant(f: F) -> (r: Self)
        ensures
            r == LiftInner::Const(f),
    {
        LiftInner::Const(f)
    }

    /// The opposite of the expression.
    pub fn neg(w: Unwrapped<'_, F>) -> (r: Self)
        ensures
            r == LiftInner::Neg(Box::new(*w.inner())),
    {
        LiftInner::Neg(w.boxed())
    }

    /// The square of the expression.
    pub fn square(w: Unwrapped<'_, F>) -> (r: Self)
        ensures
            r == LiftInner::Square(Box::new(*w.inner())),
    {
        LiftInner::Square(w.boxed())
    }

    /// The double of the expression.
    pub fn double(w: Unwrapped<'_, F>) -> (r: Self)
        ensures
            r == LiftInner::Double(Box::new(*w.inner())),
    {
        LiftInner::Double(w.boxed())
    }

    /// The inverse of the expression.
    pub fn inv(w: Unwrapped<'_, F>) -> (r: Self)
        ensures
            r == LiftInner::Invert(Box::new(*w.inner())),
    {
        LiftInner::Invert(w.boxed())
    }

    /// The sum of the expressions.
    pub fn add(lhs: Unwrapped<'_, F>, rhs: Unwrapped<'_, F>) -> (r: Self)
        ensures
            r == LiftInner::Add(Box::new(*lhs.inner()), Box::new(*rhs.inner())),
    {
        LiftInner::Add(lhs.boxed(), rhs.boxed())
    }

    /// The difference of the expressions.
    pub fn sub(lhs: Unwrapped<'_, F>, rhs: Unwrapped<'_, F>) -> (r: Self)
        ensures
            r == LiftInner::Sub(Box::new(*lhs.inner()), Box::new(*rhs.inner())),
    {
        LiftInner::Sub(lhs.boxed(), rhs.boxed())
    }

    /// The product of the expressions.
    pub fn mul(lhs: Unwrapped<'_, F>, rhs: Unwrapped<'_, F>) -> (r: Self)
        ensures
            r == LiftInner::Mul(Box::new(*lhs.inner()), Box::new(*rhs.inner())),
    {
        LiftInner::Mul(lhs.boxed(), rhs.boxed())
    }

    /// The square root of the ratio of the expressions.
    pub fn sqrt_ratio(lhs: Unwrapped<'_, F>, rhs: Unwrapped<'_, F>) -> (r: Self)
        ensures
            r == LiftInner::SqrtRatio(Box::new(*lhs.inner()), Box::new(*rhs.inner())),
    {
        LiftInner::SqrtRatio(lhs.boxed(), rhs.boxed())
    }

    /// The first expression when the condition holds, else the second.
    pub fn cond_sel(cond: bool, lhs: Unwrapped<'_, F>, rhs: Unwrapped<'_, F>) -> (r: Self)
        ensures
            r == LiftInner::CondSelect(cond, Box::new(*lhs.inner()), Box::new(*rhs.inner())),
    {
        LiftInner::CondSelect(cond, lhs.boxed(), rhs.boxed())
    }

    /// Whether a lifted value occurs in the expression, as [`has_lift`] says.
    pub fn is_symbolic(&self) -> (r: bool)
        ensures
            r == has_lift(*self),
        decreases self,
    {
        match self {
            LiftInner::Const(_) => false,
            LiftInner::Lift(_, _) => true,
            LiftInner::Add(l, r) => (**l).is_symbolic() || (**r).is_symbolic(),
            LiftInner::Sub(l, r) => (**l).is_symbolic() || (**r).is_symbolic(),
            LiftInner::Mul(l, r) => (**l).is_symbolic() || (**r).is_symbolic(),
            LiftInner::Neg(x) => (**x).is_symbolic(),
            LiftInner::Square(x) => (**x).is_symbolic(),
            LiftInner::Double(x) => (**x).is_symbolic(),
            LiftInner::Invert(x) => (**x).is_symbolic(),
            LiftInner::SqrtRatio(l, r) => (**l).is_symbolic() || (**r).is_symbolic(),
            LiftInner::CondSelect(_, l, r) => (**l).is_symbolic() || (**r).is_symbolic(),
        }
    }
}

/// The values that evaluating an expression gave at each of its operations, in its shape.
pub enum EvalTrace<T> {
    /// A constant or lifted value and its value.
    Leaf(T),
    /// An operation of one operand: the trace of the operand and the value.
    Unary(Box<EvalTrace<T>>, T),
    /// An operation of two operands (or a conditional selection): the traces of the operands
    /// and the value.
    Binary(Box<EvalTrace<T>>, Box<EvalTrace<T>>, T),
}

/// The value at the top of a trace.
pub open spec fn eval_value<T>(t: EvalTrace<T>) -> T {
    match t {
        EvalTrace::Leaf(v) => v,
        EvalTrace::Unary(_, v) => v,
        EvalTrace::Binary(_, _, v) => v,
    }
}

/// The trace is one that evaluating the expression may give: each constant and lifted value
/// evaluated by `constant` and `lift`, each operation by its function on the values of its
/// operands, the condition of a selection passed with both sides.
pub open spec fn eval_fits<F, T, C: Fn(&F) -> T, L: Fn(usize, Option<&F>) -> T, A: Fn(T, T) -> T, S: Fn(T, T) -> T, M: Fn(T, T) -> T, N: Fn(T) -> T, Q: Fn(T) -> T, D: Fn(T) -> T, I: Fn(T) -> T, R: Fn(T, T) -> T, K: Fn(bool, T, T) -> T>(e: LiftInner<F>, t: EvalTrace<T>, constant: C, lift: L, add_op: A, sub_op: S, mul_op: M, neg: N, square: Q, double: D, invert: I, sqrt_ratio: R, cond_select: K) -> bool
    decreases e,
{
    match (e, t) {
        (LiftInner::Const(x), EvalTrace::Leaf(v)) => call_ensures(constant, (&x,), v),
        (LiftInner::Lift(id, x), EvalTrace::Leaf(v)) => call_ensures(lift, (id, value_ref(&x)), v),
        (LiftInner::Add(x, y), EvalTrace::Binary(tx, ty, v)) => eval_fits::<F, T, C, L, A, S, M, N, Q, D, I, R, K>(*x, *tx, constant, lift, add_op, sub_op, mul_op, neg, square, double, invert, sqrt_ratio, cond_select)
            && eval_fits::<F, T, C, L, A, S, M, N, Q, D, I, R, K>(*y, *ty, constant, lift, add_op, sub_op, mul_op, neg, square, double, invert, sqrt_ratio, cond_select) && call_ensures(add_op, (eval_value(*tx), eval_value(*ty)), v),
        (LiftInner::Sub(x, y), EvalTrace::Binary(tx, ty, v)) => eval_fits::<F, T, C, L, A, S, M, N, Q, D, I, R, K>(*x, *tx, constant, lift, add_op, sub_op, mul_op, neg, square, double, invert, sqrt_ratio, cond_select)
            && eval_fits::<F, T, C, L, A, S, M, N, Q, D, I, R, K>(*y, *ty, constant, lift, add_op, sub_op, mul_op, neg, square, double, invert, sqrt_ratio, cond_select) && call_ensures(sub_op, (eval_value(*tx), eval_value(*ty)), v),
        (LiftInner::Mul(x, y), EvalTrace::Binary(tx, ty, v)) => eval_fits::<F, T, C, L, A, S, M, N, Q, D, I, R, K>(*x, *tx, constant, lift, add_op, sub_op, mul_op, neg, square, double, invert, sqrt_ratio, cond_select)
            && eval_fits::<F, T, C, L, A, S, M, N, Q, D, I, R, K>(*y, *ty, constant, lift, add_op, sub_op, mul_op, neg, square, double, invert, sqrt_ratio, cond_select) && call_ensures(mul_op, (eval_value(*tx), eval_value(*ty)), v),
        (LiftInner::Neg(x), EvalTrace::Unary(tx, v)) => eval_fits::<F, T, C, L, A, S, M, N, Q, D, I, R, K>(*x, *tx, constant, lift, add_op, sub_op, mul_op, neg, square, double, invert, sqrt_ratio, cond_select)
            && call_ensures(neg, (eval_value(*tx),), v),
        (LiftInner::Square(x), EvalTrace::Unary(tx, v)) => eval_fits::<F, T, C, L, A, S, M, N, Q, D, I, R, K>(*x, *tx, constant, lift, add_op, sub_op, mul_op, neg, square, double, invert, sqrt_ratio, cond_select)
            && call_ensures(square, (eval_value(*tx),), v),
        (LiftInner::Double(x), EvalTrace::Unary(tx, v)) => eval_fits::<F, T, C, L, A, S, M, N, Q, D, I, R, K>(*x, *tx, constant, lift, add_op, sub_op, mul_op, neg, square, double, invert, sqrt_ratio, cond_select)
            && call_ensures(double, (eval_value(*tx),), v),
        (LiftInner::Invert(x), EvalTrace::Unary(tx, v)) => eval_fits::<F, T, C, L, A, S, M, N, Q, D, I, R, K>(*x, *tx, constant, lift, add_op, sub_op, mul_op, neg, square, double, invert, sqrt_ratio, cond_select)
            && call_ensures(invert, (eval_value(*tx),), v),
        (LiftInner::SqrtRatio(x, y), EvalTrace::Binary(tx, ty, v)) => eval_fits::<F, T, C, L, A, S, M, N, Q, D, I, R, K>(*x, *tx, constant, lift, add_op, sub_op, mul_op, neg, square, double, invert, sqrt_ratio, cond_select)
            && eval_fits::<F, T, C, L, A, S, M, N, Q, D, I, R, K>(*y, *ty, constant, lift, add_op, sub_op, mul_op, neg, square, double, invert, sqrt_ratio, cond_select) && call_ensures(sqrt_ratio, (eval_value(*tx), eval_value(*ty)), v),
        (LiftInner::CondSelect(c, x, y), EvalTrace::Binary(tx, ty, v)) => eval_fits::<F, T, C, L, A, S, M, N, Q, D, I, R, K>(*x, *tx, constant, lift, add_op, sub_op, mul_op, neg, square, double, invert, sqrt_ratio, cond_select)
            && eval_fits::<F, T, C, L, A, S, M, N, Q, D, I, R, K>(*y, *ty, constant, lift, add_op, sub_op, mul_op, neg, square, double, invert, sqrt_ratio, cond_select) && call_ensures(cond_select, (c, eval_value(*tx), eval_value(*ty)), v),
        _ => false,
    }
}

/// Every function that evaluating takes may be called on any arguments.
pub open spec fn eval_callable<F, T, C: Fn(&F) -> T, L: Fn(usize, Option<&F>) -> T, A: Fn(T, T) -> T, S: Fn(T, T) -> T, M: Fn(T, T) -> T, N: Fn(T) -> T, Q: Fn(T) -> T, D: Fn(T) -> T, I: Fn(T) -> T, R: Fn(T, T) -> T, K: Fn(bool, T, T) -> T>(constant: C, lift: L, add_op: A, sub_op: S, mul_op: M, neg: N, square: Q, double: D, invert: I, sqrt_ratio: R, cond_select: K) -> bool {
    &&& forall|x: &F| constant.requires((x,))
    &&& forall|id: usize, x: Option<&F>| lift.requires((id, x))
    &&& forall|x: T, y: T| add_op.requires((x, y))
    &&& forall|x: T, y: T| sub_op.requires((x, y))
    &&& forall|x: T, y: T| mul_op.requires((x, y))
    &&& forall|x: T| neg.requires((x,))
    &&& forall|x: T| square.requires((x,))
    &&& forall|x: T| double.requires((x,))
    &&& forall|x: T| invert.requires((x,))
    &&& forall|x: T, y: T| sqrt_ratio.requires((x, y))
    &&& forall|c: bool, x: T, y: T| cond_select.requires((c, x, y))
}

impl<F> LiftInner<F> {
    /// Evaluates the expression bottom up: constants and lifted values by `constant` and
    /// `lift`, each operation by its function on the values of its operands (see
    /// [`eval_fits`]).
    pub fn evaluate<T, C: Fn(&F) -> T, L: Fn(usize, Option<&F>) -> T, A: Fn(T, T) -> T, S: Fn(T, T) -> T, M: Fn(T, T) -> T, N: Fn(T) -> T, Q: Fn(T) -> T, D: Fn(T) -> T, I: Fn(T) -> T, R: Fn(T, T) -> T, K: Fn(bool, T, T) -> T>(
        &self,
        constant: &C,
        lift: &L,
        add_op: &A,
        sub_op: &S,
        mul_op: &M,
        neg: &N,
        square: &Q,
        double: &D,
        invert: &I,
        sqrt_ratio: &R,
        cond_select: &K,
    ) -> (r: T)
        requires
            eval_callable::<F, T, C, L, A, S, M, N, Q, D, I, R, K>(*constant, *lift, *add_op, *sub_op, *mul_op, *neg, *square, *double, *invert, *sqrt_ratio, *cond_select),
        ensures
            exists|t: EvalTrace<T>| eval_fits::<F, T, C, L, A, S, M, N, Q, D, I, R, K>(*self, t, *constant, *lift, *add_op, *sub_op, *mul_op, *neg, *square, *double, *invert, *sqrt_ratio, *cond_select)
                && eval_value(t) == r,
    {
        let traced = self.evaluate_traced(constant, lift, add_op, sub_op, mul_op, neg, square, double, invert, sqrt_ratio, cond_select);
        traced.0
    }

    fn evaluate_traced<T, C: Fn(&F) -> T, L: Fn(usize, Option<&F>) -> T, A: Fn(T, T) -> T, S: Fn(T, T) -> T, M: Fn(T, T) -> T, N: Fn(T) -> T, Q: Fn(T) -> T, D: Fn(T) -> T, I: Fn(T) -> T, R: Fn(T, T) -> T, K: Fn(bool, T, T) -> T>(
        &self,
        constant: &C,
        lift: &L,
        add_op: &A,
        sub_op: &S,
        mul_op: &M,
        neg: &N,
        square: &Q,
        double: &D,
        invert: &I,
        sqrt_ratio: &R,
        cond_select: &K,
    ) -> (r: (T, Ghost<EvalTrace<T>>))
        requires
            eval_callable::<F, T, C, L, A, S, M, N, Q, D, I, R, K>(*constant, *lift, *add_op, *sub_op, *mul_op, *neg, *square, *double, *invert, *sqrt_ratio, *cond_select),
        ensures
            eval_fits::<F, T, C, L, A, S, M, N, Q, D, I, R, K>(*self, r.1@, *constant, *lift, *add_op, *sub_op, *mul_op, *neg, *square, *double, *invert, *sqrt_ratio, *cond_select),
            eval_value(r.1@) == r.0,
        decreases self,
    {
        match self {
            LiftInner::Const(x) => {
                let v = constant(x);
                (v, Ghost(EvalTrace::Leaf(v)))
            },
            LiftInner::Lift(id, x) => {
                let xr = match x {
                    Some(f) => Some(f),
                    None => None,
                };
                proof {
                    assert(xr == value_ref(x));
                }
                let v = lift(*id, xr);
                (v, Ghost(EvalTrace::Leaf(v)))
            },
            LiftInner::Add(x, y) => {
                let (a, Ghost(ta)) = (**x).evaluate_traced(constant, lift, add_op, sub_op, mul_op, neg, square, double, invert, sqrt_ratio, cond_select);
                let (b, Ghost(tb)) = (**y).evaluate_traced(constant, lift, add_op, sub_op, mul_op, neg, square, double, invert, sqrt_ratio, cond_select);
                let v = add_op(a, b);
                (v, Ghost(EvalTrace::Binary(Box::new(ta), Box::new(tb), v)))
            },
            LiftInner::Sub(x, y) => {
                let (a, Ghost(ta)) = (**x).evaluate_traced(constant, lift, add_op, sub_op, mul_op, neg, square, double, invert, sqrt_ratio, cond_select);
                let (b, Ghost(tb)) = (**y).evaluate_traced(constant, lift, add_op, sub_op, mul_op, neg, square, double, invert, sqrt_ratio, cond_select);
                let v = sub_op(a, b);
                (v, Ghost(EvalTrace::Binary(Box::new(ta), Box::new(tb), v)))
            },
            LiftInner::Mul(x, y) => {
                let (a, Ghost(ta)) = (**x).evaluate_traced(constant, lift, add_op, sub_op, mul_op, neg, square, double, invert, sqrt_ratio, cond_select);
                let (b, Ghost(tb)) = (**y).evaluate_traced(constant, lift, add_op, sub_op, mul_op, neg, square, double, invert, sqrt_ratio, cond_select);
                let v = mul_op(a, b);
                (v, Ghost(EvalTrace::Binary(Box::new(ta), Box::new(tb), v)))
            },
            LiftInner::Neg(x) => {
                let (a, Ghost(ta)) = (**x).evaluate_traced(constant, lift, add_op, sub_op, mul_op, neg, square, double, invert, sqrt_ratio, cond_select);
                let v = neg(a);
                (v, Ghost(EvalTrace::Unary(Box::new(ta), v)))
            },
            LiftInner::Square(x) => {
                let (a, Ghost(ta)) = (**x).evaluate_traced(constant, lift, add_op, sub_op, mul_op, neg, square, double, invert, sqrt_ratio, cond_select);
                let v = square(a);
                (v, Ghost(EvalTrace::Unary(Box::new(ta), v)))
            },
            LiftInner::Double(x) => {
                let (a, Ghost(ta)) = (**x).evaluate_traced(constant, lift, add_op, sub_op, mul_op, neg, square, double, invert, sqrt_ratio, cond_select);
                let v = double(a);
                (v, Ghost(EvalTrace::Unary(Box::new(ta), v)))
            },
            LiftInner::Invert(x) => {
                let (a, Ghost(ta)) = (**x).evaluate_traced(constant, lift, add_op, sub_op, mul_op, neg, square, double, invert, sqrt_ratio, cond_select);
                let v = invert(a);
                (v, Ghost(EvalTrace::Unary(Box::new(ta), v)))
            },
            LiftInner::SqrtRatio(x, y) => {
                let (a, Ghost(ta)) = (**x).evaluate_traced(constant, lift, add_op, sub_op, mul_op, neg, square, double, invert, sqrt_ratio, cond_select);
                let (b, Ghost(tb)) = (**y).evaluate_traced(constant, lift, add_op, sub_op, mul_op, neg, square, double, invert, sqrt_ratio, cond_select);
                let v = sqrt_ratio(a, b);
                (v, Ghost(EvalTrace::Binary(Box::new(ta), Box::new(tb), v)))
            },
            LiftInner::CondSelect(c, x, y) => {
                let (a, Ghost(ta)) = (**x).evaluate_traced(constant, lift, add_op, sub_op, mul_op, neg, square, double, invert, sqrt_ratio, cond_select);
                let (b, Ghost(tb)) = (**y).evaluate_traced(constant, lift, add_op, sub_op, mul_op, neg, square, double, invert, sqrt_ratio, cond_select);
                let v = cond_select(*c, a, b);
                (v, Ghost(EvalTrace::Binary(Box::new(ta), Box::new(tb), v)))
            },
        }
    }
}

} // verus!

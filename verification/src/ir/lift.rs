//! Symbolic field values: expressions over constants and lifted values (values that come from
//! outside the circuit, which may or may not be known), and their simplification.
use vstd::prelude::*;
use vstd::std_specs::cmp::PartialEqSpec;

pub mod inner;
pub mod unwrapped;

use inner::{LiftInner, LiftShape, has_lift, shape_of};
use unwrapped::{Unwrapped, lift_eq, law_lift_eq_equivalence, self_comparable};

verus! {

/// The operations of a field that the simplification of lifted expressions computes with,
/// each with the value it stands for.
pub trait LiftField: Copy {
    /// The sum, as a value.
    spec fn field_add(self, rhs: Self) -> Self;

    /// The difference, as a value.
    spec fn field_sub(self, rhs: Self) -> Self;

    /// The product, as a value.
    spec fn field_mul(self, rhs: Self) -> Self;

    /// The opposite, as a value.
    spec fn field_neg(self) -> Self;

    /// The square, as a value.
    spec fn field_square(self) -> Self;

    /// The double, as a value.
    spec fn field_double(self) -> Self;

    /// The inverse, or zero for zero, as a value.
    spec fn field_invert(self) -> Self;

    /// The square root of the ratio, as a value.
    spec fn field_sqrt_ratio(num: Self, div: Self) -> Self;

    /// The value of a named constant.
    spec fn field_named(which: NamedConstant) -> Self;

    /// The sum.
    fn add(&self, rhs: &Self) -> (r: Self)
        ensures
            r == self.field_add(*rhs);

    /// The difference.
    fn sub(&self, rhs: &Self) -> (r: Self)
        ensures
            r == self.field_sub(*rhs);

    /// The product.
    fn mul(&self, rhs: &Self) -> (r: Self)
        ensures
            r == self.field_mul(*rhs);

    /// The opposite.
    fn neg(&self) -> (r: Self)
        ensures
            r == self.field_neg();

    /// The square.
    fn square(&self) -> (r: Self)
        ensures
            r == self.field_square();

    /// The double.
    fn double(&self) -> (r: Self)
        ensures
            r == self.field_double();

    /// The inverse, or zero for zero.
    fn invert_or_zero(&self) -> (r: Self)
        ensures
            r == self.field_invert();

    /// The square root of the ratio, as the field's `sqrt_ratio` gives it.
    fn sqrt_ratio(num: &Self, div: &Self) -> (r: Self)
        ensures
            r == Self::field_sqrt_ratio(*num, *div);

    /// The value of a named constant of the field.
    fn named(which: NamedConstant) -> (r: Self)
        ensures
            r == Self::field_named(which);
}

/// The constants that a prime field names.
#[derive(Debug, Clone, Copy, PartialEq, Eq, Structural)]
pub enum NamedConstant {
    /// Zero.
    Zero,
    /// One.
    One,
    /// The inverse of two.
    TwoInv,
    /// The multiplicative generator.
    MultiplicativeGenerator,
    /// The root of unity.
    RootOfUnity,
    /// The inverse of the root of unity.
    RootOfUnityInv,
    /// The generator of the multiplicative subgroup of order `t`.
    Delta,
}

/// Whether the expression simplifies to a constant: every lifted value that counts has a known
/// value and lifted values are not kept; of a conditional selection only the selected side
/// counts.
pub open spec fn concrete<F>(e: LiftInner<F>, keep_lifted: bool) -> bool
    decreases e,
{
    match e {
        LiftInner::Const(_) => true,
        LiftInner::Lift(_, v) => v is Some && !keep_lifted,
        LiftInner::Add(l, r) => concrete(*l, keep_lifted) && concrete(*r, keep_lifted),
        LiftInner::Sub(l, r) => concrete(*l, keep_lifted) && concrete(*r, keep_lifted),
        LiftInner::Mul(l, r) => concrete(*l, keep_lifted) && concrete(*r, keep_lifted),
        LiftInner::Neg(x) => concrete(*x, keep_lifted),
        LiftInner::Square(x) => concrete(*x, keep_lifted),
        LiftInner::Double(x) => concrete(*x, keep_lifted),
        LiftInner::Invert(x) => concrete(*x, keep_lifted),
        LiftInner::SqrtRatio(l, r) => concrete(*l, keep_lifted) && concrete(*r, keep_lifted),
        LiftInner::CondSelect(c, l, r) => if c { concrete(*l, keep_lifted) } else { concrete(*r, keep_lifted) },
    }
}

/// The shape of a side of an operation after simplification: a constant when it simplifies to
/// one.
pub open spec fn side_shape<F>(e: LiftInner<F>, keep_lifted: bool) -> LiftShape<F>
    decreases e, 1int,
{
    if concrete(e, keep_lifted) {
        LiftShape::Const
    } else {
        residual(e, keep_lifted)
    }
}

/// The shape of what an expression that does not simplify to a constant becomes: each side
/// of an operation that simplifies to a constant becomes that constant, lifted values are
/// kept with their values, and a conditional selection becomes its selected side.
pub open spec fn residual<F>(e: LiftInner<F>, keep_lifted: bool) -> LiftShape<F>
    decreases e, 0int,
{
    match e {
        LiftInner::Const(_) => LiftShape::Const,
        LiftInner::Lift(id, v) => LiftShape::Lift(id, v),
        LiftInner::Add(l, r) => LiftShape::Add(Box::new(side_shape(*l, keep_lifted)), Box::new(side_shape(*r, keep_lifted))),
        LiftInner::Sub(l, r) => LiftShape::Sub(Box::new(side_shape(*l, keep_lifted)), Box::new(side_shape(*r, keep_lifted))),
        LiftInner::Mul(l, r) => LiftShape::Mul(Box::new(side_shape(*l, keep_lifted)), Box::new(side_shape(*r, keep_lifted))),
        LiftInner::Neg(x) => LiftShape::Neg(Box::new(side_shape(*x, keep_lifted))),
        LiftInner::Square(x) => LiftShape::Square(Box::new(side_shape(*x, keep_lifted))),
        LiftInner::Double(x) => LiftShape::Double(Box::new(side_shape(*x, keep_lifted))),
        LiftInner::Invert(x) => LiftShape::Invert(Box::new(side_shape(*x, keep_lifted))),
        LiftInner::SqrtRatio(l, r) => LiftShape::SqrtRatio(Box::new(side_shape(*l, keep_lifted)), Box::new(side_shape(*r, keep_lifted))),
        LiftInner::CondSelect(c, l, r) => if c { residual(*l, keep_lifted) } else { residual(*r, keep_lifted) },
    }
}

/// The value of a concrete expression (see [`concrete`]), computed with the field's
/// operations; a known lifted value stands for its value.
pub open spec fn value_of<F: LiftField>(e: LiftInner<F>) -> F
    decreases e,
{
    match e {
        LiftInner::Const(f) => f,
        LiftInner::Lift(_, v) => v.unwrap(),
        LiftInner::Add(l, r) => value_of(*l).field_add(value_of(*r)),
        LiftInner::Sub(l, r) => value_of(*l).field_sub(value_of(*r)),
        LiftInner::Mul(l, r) => value_of(*l).field_mul(value_of(*r)),
        LiftInner::Neg(x) => value_of(*x).field_neg(),
        LiftInner::Square(x) => value_of(*x).field_square(),
        LiftInner::Double(x) => value_of(*x).field_double(),
        LiftInner::Invert(x) => value_of(*x).field_invert(),
        LiftInner::SqrtRatio(l, r) => F::field_sqrt_ratio(value_of(*l), value_of(*r)),
        LiftInner::CondSelect(c, l, r) => if c { value_of(*l) } else { value_of(*r) },
    }
}

/// What each operation computes, in terms of the field's operations on the values of its
/// sides: the square of a value is its product with itself and its double its sum with itself
/// wherever the field's square and double are so, the difference is the sum with the
/// opposite wherever the field's is, and so on; a conditional selection takes the value of the
/// selected side. An expression is concrete exactly when the expression it computes like is.
pub proof fn law_operation_values<F: LiftField>(x: LiftInner<F>, y: LiftInner<F>, k: bool)
    ensures
        value_of(LiftInner::Add(Box::new(x), Box::new(y))) == value_of(x).field_add(value_of(y)),
        value_of(LiftInner::Sub(Box::new(x), Box::new(y))) == value_of(x).field_sub(value_of(y)),
        value_of(LiftInner::Mul(Box::new(x), Box::new(y))) == value_of(x).field_mul(value_of(y)),
        value_of(LiftInner::Neg(Box::new(x))) == value_of(x).field_neg(),
        value_of(LiftInner::Square(Box::new(x))) == value_of(x).field_square(),
        value_of(LiftInner::Double(Box::new(x))) == value_of(x).field_double(),
        value_of(LiftInner::Invert(Box::new(x))) == value_of(x).field_invert(),
        value_of(LiftInner::SqrtRatio(Box::new(x), Box::new(y))) == F::field_sqrt_ratio(value_of(x), value_of(y)),
        value_of(LiftInner::CondSelect(true, Box::new(x), Box::new(y))) == value_of(x),
        value_of(LiftInner::CondSelect(false, Box::new(x), Box::new(y))) == value_of(y),
        (forall|a: F| #[trigger] a.field_square() == a.field_mul(a)) ==> value_of(LiftInner::Square(Box::new(x)))
            == value_of(LiftInner::Mul(Box::new(x), Box::new(x))),
        (forall|a: F| #[trigger] a.field_double() == a.field_add(a)) ==> value_of(LiftInner::Double(Box::new(x)))
            == value_of(LiftInner::Add(Box::new(x), Box::new(x))),
        (forall|a: F, b: F| #[trigger] a.field_sub(b) == a.field_add(b.field_neg())) ==> value_of(LiftInner::Sub(Box::new(x),
            Box::new(y))) == value_of(LiftInner::Add(Box::new(x), Box::new(LiftInner::Neg(Box::new(y))))),
        concrete(LiftInner::Square(Box::new(x)), k) == concrete(LiftInner::Mul(Box::new(x), Box::new(x)), k),
        concrete(LiftInner::Double(Box::new(x)), k) == concrete(LiftInner::Add(Box::new(x), Box::new(x)), k),
        concrete(LiftInner::Sub(Box::new(x), Box::new(y)), k) == concrete(LiftInner::Add(Box::new(x), Box::new(
            LiftInner::Neg(Box::new(y)))), k),
{
    let n = LiftInner::Neg(Box::new(y));
    assert(value_of(n) == value_of(y).field_neg());
    assert(concrete(n, k) == concrete(y, k));
}

/// A side of an operation after simplification: the constant of its value when it is
/// concrete, else what remains of it.
pub open spec fn side_expr_of<F: LiftField>(e: LiftInner<F>, keep_lifted: bool) -> LiftInner<F>
    decreases e, 1int,
{
    if concrete(e, keep_lifted) {
        LiftInner::Const(value_of(e))
    } else {
        remains_of(e, keep_lifted)
    }
}

/// What an expression that is not concrete becomes: each side of an operation replaced by
/// [`side_expr_of`], lifted values kept with their values, and a conditional selection replaced
/// by what remains of its selected side.
pub open spec fn remains_of<F: LiftField>(e: LiftInner<F>, keep_lifted: bool) -> LiftInner<F>
    decreases e, 0int,
{
    match e {
        LiftInner::Const(f) => LiftInner::Const(f),
        LiftInner::Lift(id, v) => LiftInner::Lift(id, v),
        LiftInner::Add(l, r) => LiftInner::Add(Box::new(side_expr_of(*l, keep_lifted)), Box::new(side_expr_of(*r, keep_lifted))),
        LiftInner::Sub(l, r) => LiftInner::Sub(Box::new(side_expr_of(*l, keep_lifted)), Box::new(side_expr_of(*r, keep_lifted))),
        LiftInner::Mul(l, r) => LiftInner::Mul(Box::new(side_expr_of(*l, keep_lifted)), Box::new(side_expr_of(*r, keep_lifted))),
        LiftInner::Neg(x) => LiftInner::Neg(Box::new(side_expr_of(*x, keep_lifted))),
        LiftInner::Square(x) => LiftInner::Square(Box::new(side_expr_of(*x, keep_lifted))),
        LiftInner::Double(x) => LiftInner::Double(Box::new(side_expr_of(*x, keep_lifted))),
        LiftInner::Invert(x) => LiftInner::Invert(Box::new(side_expr_of(*x, keep_lifted))),
        LiftInner::SqrtRatio(l, r) => LiftInner::SqrtRatio(Box::new(side_expr_of(*l, keep_lifted)), Box::new(side_expr_of(*r, keep_lifted))),
        LiftInner::CondSelect(c, l, r) => if c { remains_of(*l, keep_lifted) } else { remains_of(*r, keep_lifted) },
    }
}

/// The shape of a simplified side is the shape that [`side_shape`] gives, and the side is
/// what [`side_expr_of`] gives.
proof fn lemma_side<F: LiftField>(l: LiftInner<F>, keep_lifted: bool, a: Result<F, LiftInner<F>>)
    requires
        a is Ok <==> concrete(l, keep_lifted),
        a matches Ok(v) ==> v == value_of(l),
        a matches Err(t) ==> shape_of(t) == residual(l, keep_lifted) && t == remains_of(l, keep_lifted),
    ensures
        side_shape(l, keep_lifted) == match a {
            Ok(_) => LiftShape::<F>::Const,
            Err(t) => shape_of(t),
        },
        side_expr_of(l, keep_lifted) == match a {
            Ok(v) => LiftInner::Const(v),
            Err(t) => t,
        },
{
}

/// The result of simplifying one side of an operation, as an expression.
fn side_expr<F: LiftField>(r: Result<F, LiftInner<F>>) -> (e: Box<LiftInner<F>>)
    ensures
        shape_of(*e) == match r {
            Ok(_) => LiftShape::<F>::Const,
            Err(t) => shape_of(t),
        },
        *e == match r {
            Ok(v) => LiftInner::Const(v),
            Err(t) => t,
        },
{
    match r {
        Ok(f) => LiftInner::constant(f).boxed(),
        Err(t) => t.boxed(),
    }
}

/// Simplifies the expression: a constant when it is concrete (see [`concrete`]), computed with
/// the field's operations (the inverse of zero being zero), or else the expression of the
/// shape [`residual`] says, each side of an operation that is concrete folded into a constant.
/// Lifted values with a known value count as constants unless they are kept.
pub fn simplify<F: LiftField>(e: &LiftInner<F>, keep_lifted: bool) -> (r: Result<F, LiftInner<F>>)
    ensures
        r is Ok <==> concrete(*e, keep_lifted),
        r matches Ok(v) ==> v == value_of(*e),
        r matches Err(t) ==> shape_of(t) == residual(*e, keep_lifted),
        r matches Err(t) ==> t == remains_of(*e, keep_lifted),
    decreases e,
{
    match e {
        LiftInner::Const(f) => Ok(*f),
        LiftInner::Lift(id, v) => match v {
            Some(inner) => if !keep_lifted {
                Ok(*inner)
            } else {
                Err(LiftInner::Lift(*id, Some(*inner)))
            },
            None => Err(LiftInner::Lift(*id, None)),
        },
        LiftInner::Add(l, r) => {
            let a = simplify(&**l, keep_lifted);
            let b = simplify(&**r, keep_lifted);
            proof {
                lemma_side(**l, keep_lifted, a);
                lemma_side(**r, keep_lifted, b);
            }
            match (a, b) {
                (Ok(x), Ok(y)) => Ok(x.add(&y)),
                (a, b) => Err(LiftInner::Add(side_expr(a), side_expr(b))),
            }
        },
        LiftInner::Sub(l, r) => {
            let a = simplify(&**l, keep_lifted);
            let b = simplify(&**r, keep_lifted);
            proof {
                lemma_side(**l, keep_lifted, a);
                lemma_side(**r, keep_lifted, b);
            }
            match (a, b) {
                (Ok(x), Ok(y)) => Ok(x.sub(&y)),
                (a, b) => Err(LiftInner::Sub(side_expr(a), side_expr(b))),
            }
        },
        LiftInner::Mul(l, r) => {
            let a = simplify(&**l, keep_lifted);
            let b = simplify(&**r, keep_lifted);
            proof {
                lemma_side(**l, keep_lifted, a);
                lemma_side(**r, keep_lifted, b);
            }
            match (a, b) {
                (Ok(x), Ok(y)) => Ok(x.mul(&y)),
                (a, b) => Err(LiftInner::Mul(side_expr(a), side_expr(b))),
            }
        },
        LiftInner::Neg(x) => {
            let a = simplify(&**x, keep_lifted);
            proof {
                lemma_side(**x, keep_lifted, a);
            }
            match a {
                Ok(f) => Ok(f.neg()),
                Err(t) => Err(LiftInner::Neg(t.boxed())),
            }
        },
        LiftInner::Square(x) => {
            let a = simplify(&**x, keep_lifted);
            proof {
                lemma_side(**x, keep_lifted, a);
            }
            match a {
                Ok(f) => Ok(f.square()),
                Err(t) => Err(LiftInner::Square(t.boxed())),
            }
        },
        LiftInner::Double(x) => {
            let a = simplify(&**x, keep_lifted);
            proof {
                lemma_side(**x, keep_lifted, a);
            }
            match a {
                Ok(f) => Ok(f.double()),
                Err(t) => Err(LiftInner::Double(t.boxed())),
            }
        },
        LiftInner::Invert(x) => {
            let a = simplify(&**x, keep_lifted);
            proof {
                lemma_side(**x, keep_lifted, a);
            }
            match a {
                Ok(f) => Ok(f.invert_or_zero()),
                Err(t) => Err(LiftInner::Invert(t.boxed())),
            }
        },
        LiftInner::SqrtRatio(l, r) => {
            let a = simplify(&**l, keep_lifted);
            let b = simplify(&**r, keep_lifted);
            proof {
                lemma_side(**l, keep_lifted, a);
                lemma_side(**r, keep_lifted, b);
            }
            match (a, b) {
                (Ok(x), Ok(y)) => Ok(F::sqrt_ratio(&x, &y)),
                (a, b) => Err(LiftInner::SqrtRatio(side_expr(a), side_expr(b))),
            }
        },
        LiftInner::CondSelect(c, l, r) => if *c {
            simplify(&**l, keep_lifted)
        } else {
            simplify(&**r, keep_lifted)
        },
    }
}

/// The simplified expression: the constant it simplifies to, or what remains (see
/// [`simplify`]); lifted values are kept.
pub fn simplified<F: LiftField>(e: &LiftInner<F>) -> (r: LiftInner<F>)
    ensures
        concrete(*e, true) ==> r == LiftInner::Const(value_of(*e)),
        !concrete(*e, true) ==> shape_of(r) == residual(*e, true),
        !concrete(*e, true) ==> r == remains_of(*e, true),
{
    match simplify(e, true) {
        Ok(f) => LiftInner::constant(f),
        Err(t) => t,
    }
}

/// The constant the expression stands for, when every lifted value in it is known.
pub fn concretized<F: LiftField>(e: &LiftInner<F>) -> (r: Option<F>)
    ensures
        r is Some <==> concrete(*e, false),
        r matches Some(v) ==> v == value_of(*e),
{
    match simplify(e, false) {
        Ok(f) => Some(f),
        Err(_) => None,
    }
}

/// Lowers lifted expressions: a lowering of each operation, and the lowering of a whole
/// expression that combines them.
pub trait LiftLowering {
    /// The field of the constants.
    type F: LiftField;
    /// What an expression is lowered to.
    type Output;
    /// Why a lowering failed.
    type Error;

    /// Lowers a constant.
    fn lower_constant(&self, f: &Self::F) -> Result<Self::Output, Self::Error>;

    /// Lowers a lifted value, by its identifier, with its value if it is known.
    fn lower_lifted(&self, id: usize, f: Option<&Self::F>) -> Result<Self::Output, Self::Error>;

    /// Lowers a sum.
    fn lower_add(&self, lhs: &Self::Output, rhs: &Self::Output) -> Result<Self::Output, Self::Error>;

    /// Lowers a difference.
    fn lower_sub(&self, lhs: &Self::Output, rhs: &Self::Output) -> Result<Self::Output, Self::Error>;

    /// Lowers a product.
    fn lower_mul(&self, lhs: &Self::Output, rhs: &Self::Output) -> Result<Self::Output, Self::Error>;

    /// Lowers an opposite.
    fn lower_neg(&self, expr: &Self::Output) -> Result<Self::Output, Self::Error>;

    /// Lowers a double.
    fn lower_double(&self, expr: &Self::Output) -> Result<Self::Output, Self::Error>;

    /// Lowers a square.
    fn lower_square(&self, expr: &Self::Output) -> Result<Self::Output, Self::Error>;

    /// Lowers an inverse.
    fn lower_invert(&self, expr: &Self::Output) -> Result<Self::Output, Self::Error>;

    /// Lowers the square root of a ratio.
    fn lower_sqrt_ratio(&self, lhs: &Self::Output, rhs: &Self::Output) -> Result<Self::Output, Self::Error>;

    /// Lowers a conditional selection.
    fn lower_cond_select(&self, cond: bool, then: &Self::Output, otherwise: &Self::Output) -> Result<Self::Output, Self::Error>;
}

/// The reference to the value of a lifted value, if it is known.
pub open spec fn value_ref<'a, F>(v: &'a Option<F>) -> Option<&'a F> {
    match v {
        Some(x) => Some(x),
        None => None,
    }
}

/// The operations of two operands.
pub enum BinaryOp {
    /// Sum.
    Add,
    /// Difference.
    Sub,
    /// Product.
    Mul,
    /// Square root of a ratio.
    SqrtRatio,
    /// Conditional selection, with its condition.
    CondSelect(bool),
}

/// The operations of one operand.
pub enum UnaryOp {
    /// Opposite.
    Neg,
    /// Square.
    Square,
    /// Double.
    Double,
    /// Inverse.
    Invert,
}

/// `r` is a result that the lowering of the operation may give on the lowered operands.
pub open spec fn binary_lowers<L: LiftLowering>(l: L, op: BinaryOp, p: L::Output, q: L::Output, r: Result<L::Output, L::Error>) -> bool {
    match op {
        BinaryOp::Add => call_ensures(L::lower_add, (&l, &p, &q), r),
        BinaryOp::Sub => call_ensures(L::lower_sub, (&l, &p, &q), r),
        BinaryOp::Mul => call_ensures(L::lower_mul, (&l, &p, &q), r),
        BinaryOp::SqrtRatio => call_ensures(L::lower_sqrt_ratio, (&l, &p, &q), r),
        BinaryOp::CondSelect(c) => call_ensures(L::lower_cond_select, (&l, c, &p, &q), r),
    }
}

/// `r` is a result that the lowering of the operation may give on the lowered operand.
pub open spec fn unary_lowers<L: LiftLowering>(l: L, op: UnaryOp, p: L::Output, r: Result<L::Output, L::Error>) -> bool {
    match op {
        UnaryOp::Neg => call_ensures(L::lower_neg, (&l, &p), r),
        UnaryOp::Square => call_ensures(L::lower_square, (&l, &p), r),
        UnaryOp::Double => call_ensures(L::lower_double, (&l, &p), r),
        UnaryOp::Invert => call_ensures(L::lower_invert, (&l, &p), r),
    }
}

/// What lowering an operation on two lowered operands may give: the error of the left one,
/// else that of the right one, else what the lowering of the operation may give.
pub open spec fn binary_step<L: LiftLowering>(
    l: L,
    op: BinaryOp,
    a: Result<L::Output, L::Error>,
    b: Result<L::Output, L::Error>,
    r: Result<L::Output, L::Error>,
) -> bool {
    match (a, b) {
        (Err(e), _) => r == Err::<L::Output, L::Error>(e),
        (Ok(_), Err(e)) => r == Err::<L::Output, L::Error>(e),
        (Ok(x), Ok(y)) => binary_lowers(l, op, x, y, r),
    }
}

/// What lowering an operation on one lowered operand may give: its error, else what the
/// lowering of the operation may give.
pub open spec fn unary_step<L: LiftLowering>(l: L, op: UnaryOp, a: Result<L::Output, L::Error>, r: Result<L::Output, L::Error>) -> bool {
    match a {
        Err(e) => r == Err::<L::Output, L::Error>(e),
        Ok(x) => unary_lowers(l, op, x, r),
    }
}

/// The results that lowering gave at each operation of an expression, in its shape.
pub enum LowerTrace<O, E> {
    /// A constant or lifted value and its result.
    Leaf(Result<O, E>),
    /// An operation of one operand: the trace of the operand and the result.
    Unary(Box<LowerTrace<O, E>>, Result<O, E>),
    /// An operation of two operands: the traces of the operands and the result.
    Binary(Box<LowerTrace<O, E>>, Box<LowerTrace<O, E>>, Result<O, E>),
}

/// The result at the top of a trace.
pub open spec fn trace_result<O, E>(t: LowerTrace<O, E>) -> Result<O, E> {
    match t {
        LowerTrace::Leaf(r) => r,
        LowerTrace::Unary(_, r) => r,
        LowerTrace::Binary(_, _, r) => r,
    }
}

/// The trace is one that lowering the expression may go through: constants and lifted values
/// are lowered by the lowering, and each operation by its lowering of what both its sides
/// gave, the first error from left to right stopping it.
pub open spec fn trace_fits<L: LiftLowering>(l: L, e: LiftInner<L::F>, t: LowerTrace<L::Output, L::Error>) -> bool
    decreases e,
{
    match (e, t) {
        (LiftInner::Const(f), LowerTrace::Leaf(r)) => call_ensures(L::lower_constant, (&l, &f), r),
        (LiftInner::Lift(id, v), LowerTrace::Leaf(r)) => call_ensures(L::lower_lifted, (&l, id, value_ref(&v)), r),
        (LiftInner::Add(x, y), LowerTrace::Binary(tx, ty, r)) => trace_fits(l, *x, *tx) && trace_fits(l, *y, *ty)
            && binary_step(l, BinaryOp::Add, trace_result(*tx), trace_result(*ty), r),
        (LiftInner::Sub(x, y), LowerTrace::Binary(tx, ty, r)) => trace_fits(l, *x, *tx) && trace_fits(l, *y, *ty)
            && binary_step(l, BinaryOp::Sub, trace_result(*tx), trace_result(*ty), r),
        (LiftInner::Mul(x, y), LowerTrace::Binary(tx, ty, r)) => trace_fits(l, *x, *tx) && trace_fits(l, *y, *ty)
            && binary_step(l, BinaryOp::Mul, trace_result(*tx), trace_result(*ty), r),
        (LiftInner::Neg(x), LowerTrace::Unary(tx, r)) => trace_fits(l, *x, *tx)
            && unary_step(l, UnaryOp::Neg, trace_result(*tx), r),
        (LiftInner::Square(x), LowerTrace::Unary(tx, r)) => trace_fits(l, *x, *tx)
            && unary_step(l, UnaryOp::Square, trace_result(*tx), r),
        (LiftInner::Double(x), LowerTrace::Unary(tx, r)) => trace_fits(l, *x, *tx)
            && unary_step(l, UnaryOp::Double, trace_result(*tx), r),
        (LiftInner::Invert(x), LowerTrace::Unary(tx, r)) => trace_fits(l, *x, *tx)
            && unary_step(l, UnaryOp::Invert, trace_result(*tx), r),
        (LiftInner::SqrtRatio(x, y), LowerTrace::Binary(tx, ty, r)) => trace_fits(l, *x, *tx) && trace_fits(l, *y, *ty)
            && binary_step(l, BinaryOp::SqrtRatio, trace_result(*tx), trace_result(*ty), r),
        (LiftInner::CondSelect(c, x, y), LowerTrace::Binary(tx, ty, r)) => trace_fits(l, *x, *tx) && trace_fits(l, *y, *ty)
            && binary_step(l, BinaryOp::CondSelect(c), trace_result(*tx), trace_result(*ty), r),
        _ => false,
    }
}

/// `r` is a result that lowering the expression as it is may give (see [`trace_fits`]).
pub open spec fn lowered<L: LiftLowering>(l: L, e: LiftInner<L::F>, r: Result<L::Output, L::Error>) -> bool {
    exists|t: LowerTrace<L::Output, L::Error>| #[trigger] trace_fits(l, e, t) && trace_result(t) == r
}

/// Lowers the expression with the lowering, simplified first if asked (see [`simplified`]):
/// each operation is lowered after both its sides, and the first error, from left to right,
/// stops it.
pub fn lower<L: LiftLowering>(l: &L, value: &LiftInner<L::F>, simplify_first: bool) -> (r: Result<L::Output, L::Error>)
    ensures
        !simplify_first ==> lowered(*l, *value, r),
        simplify_first ==> exists|s: LiftInner<L::F>| #![trigger lowered(*l, s, r)] lowered(*l, s, r) && (if concrete(*value, true) {
            s is Const
        } else {
            shape_of(s) == residual(*value, true)
        }),
{
    if simplify_first {
        let s = simplified(value);
        lower_tree(l, &s)
    } else {
        lower_tree(l, value)
    }
}

/// Lowers the expression as it is, as [`lower`] says.
fn lower_tree<L: LiftLowering>(l: &L, e: &LiftInner<L::F>) -> (r: Result<L::Output, L::Error>)
    ensures
        lowered(*l, *e, r),
    decreases e,
{
    match e {
        LiftInner::Const(f) => {
            let res = l.lower_constant(f);
            proof {
                assert(trace_fits(*l, *e, LowerTrace::Leaf(res)));
            }
            res
        },
        LiftInner::Lift(id, v) => {
            let res = match v {
                Some(f) => l.lower_lifted(*id, Some(f)),
                None => l.lower_lifted(*id, None),
            };
            proof {
                assert(trace_fits(*l, *e, LowerTrace::Leaf(res)));
            }
            res
        },
        LiftInner::Add(x, y) => {
            let a = lower_tree(l, &**x);
            let b = lower_tree(l, &**y);
            let ghost (ga, gb) = (a, b);
            let res = match (a, b) {
                (Ok(a), Ok(b)) => l.lower_add(&a, &b),
                (Err(err), _) => Err(err),
                (_, Err(err)) => Err(err),
            };
            proof {
                let tx = choose|t: LowerTrace<L::Output, L::Error>| trace_fits(*l, **x, t) && trace_result(t) == ga;
                let ty = choose|t: LowerTrace<L::Output, L::Error>| trace_fits(*l, **y, t) && trace_result(t) == gb;
                let t = LowerTrace::Binary(Box::new(tx), Box::new(ty), res);
                assert(trace_fits(*l, *e, t));
            }
            res
        },
        LiftInner::Sub(x, y) => {
            let a = lower_tree(l, &**x);
            let b = lower_tree(l, &**y);
            let ghost (ga, gb) = (a, b);
            let res = match (a, b) {
                (Ok(a), Ok(b)) => l.lower_sub(&a, &b),
                (Err(err), _) => Err(err),
                (_, Err(err)) => Err(err),
            };
            proof {
                let tx = choose|t: LowerTrace<L::Output, L::Error>| trace_fits(*l, **x, t) && trace_result(t) == ga;
                let ty = choose|t: LowerTrace<L::Output, L::Error>| trace_fits(*l, **y, t) && trace_result(t) == gb;
                let t = LowerTrace::Binary(Box::new(tx), Box::new(ty), res);
                assert(trace_fits(*l, *e, t));
            }
            res
        },
        LiftInner::Mul(x, y) => {
            let a = lower_tree(l, &**x);
            let b = lower_tree(l, &**y);
            let ghost (ga, gb) = (a, b);
            let res = match (a, b) {
                (Ok(a), Ok(b)) => l.lower_mul(&a, &b),
                (Err(err), _) => Err(err),
                (_, Err(err)) => Err(err),
            };
            proof {
                let tx = choose|t: LowerTrace<L::Output, L::Error>| trace_fits(*l, **x, t) && trace_result(t) == ga;
                let ty = choose|t: LowerTrace<L::Output, L::Error>| trace_fits(*l, **y, t) && trace_result(t) == gb;
                let t = LowerTrace::Binary(Box::new(tx), Box::new(ty), res);
                assert(trace_fits(*l, *e, t));
            }
            res
        },
        LiftInner::Neg(x) => {
            let a = lower_tree(l, &**x);
            let ghost ga = a;
            let res = match a {
                Ok(a) => l.lower_neg(&a),
                Err(err) => Err(err),
            };
            proof {
                let tx = choose|t: LowerTrace<L::Output, L::Error>| trace_fits(*l, **x, t) && trace_result(t) == ga;
                let t = LowerTrace::Unary(Box::new(tx), res);
                assert(trace_fits(*l, *e, t));
            }
            res
        },
        LiftInner::Square(x) => {
            let a = lower_tree(l, &**x);
            let ghost ga = a;
            let res = match a {
                Ok(a) => l.lower_square(&a),
                Err(err) => Err(err),
            };
            proof {
                let tx = choose|t: LowerTrace<L::Output, L::Error>| trace_fits(*l, **x, t) && trace_result(t) == ga;
                let t = LowerTrace::Unary(Box::new(tx), res);
                assert(trace_fits(*l, *e, t));
            }
            res
        },
        LiftInner::Double(x) => {
            let a = lower_tree(l, &**x);
            let ghost ga = a;
            let res = match a {
                Ok(a) => l.lower_double(&a),
                Err(err) => Err(err),
            };
            proof {
                let tx = choose|t: LowerTrace<L::Output, L::Error>| trace_fits(*l, **x, t) && trace_result(t) == ga;
                let t = LowerTrace::Unary(Box::new(tx), res);
                assert(trace_fits(*l, *e, t));
            }
            res
        },
        LiftInner::Invert(x) => {
            let a = lower_tree(l, &**x);
            let ghost ga = a;
            let res = match a {
                Ok(a) => l.lower_invert(&a),
                Err(err) => Err(err),
            };
            proof {
                let tx = choose|t: LowerTrace<L::Output, L::Error>| trace_fits(*l, **x, t) && trace_result(t) == ga;
                let t = LowerTrace::Unary(Box::new(tx), res);
                assert(trace_fits(*l, *e, t));
            }
            res
        },
        LiftInner::SqrtRatio(x, y) => {
            let a = lower_tree(l, &**x);
            let b = lower_tree(l, &**y);
            let ghost (ga, gb) = (a, b);
            let res = match (a, b) {
                (Ok(a), Ok(b)) => l.lower_sqrt_ratio(&a, &b),
                (Err(err), _) => Err(err),
                (_, Err(err)) => Err(err),
            };
            proof {
                let tx = choose|t: LowerTrace<L::Output, L::Error>| trace_fits(*l, **x, t) && trace_result(t) == ga;
                let ty = choose|t: LowerTrace<L::Output, L::Error>| trace_fits(*l, **y, t) && trace_result(t) == gb;
                let t = LowerTrace::Binary(Box::new(tx), Box::new(ty), res);
                assert(trace_fits(*l, *e, t));
            }
            res
        },
        LiftInner::CondSelect(c, x, y) => {
            let a = lower_tree(l, &**x);
            let b = lower_tree(l, &**y);
            let ghost (ga, gb) = (a, b);
            let res = match (a, b) {
                (Ok(a), Ok(b)) => l.lower_cond_select(*c, &a, &b),
                (Err(err), _) => Err(err),
                (_, Err(err)) => Err(err),
            };
            proof {
                let tx = choose|t: LowerTrace<L::Output, L::Error>| trace_fits(*l, **x, t) && trace_result(t) == ga;
                let ty = choose|t: LowerTrace<L::Output, L::Error>| trace_fits(*l, **y, t) && trace_result(t) == gb;
                let t = LowerTrace::Binary(Box::new(tx), Box::new(ty), res);
                assert(trace_fits(*l, *e, t));
            }
            res
        },
    }
}

/// What remains of an expression that is not concrete is not concrete, and is what remains of
/// itself.
proof fn lemma_remains_stable<F: LiftField>(e: LiftInner<F>, keep_lifted: bool)
    requires
        !concrete(e, keep_lifted),
    ensures
        !concrete(remains_of(e, keep_lifted), keep_lifted),
        remains_of(remains_of(e, keep_lifted), keep_lifted) == remains_of(e, keep_lifted),
    decreases e, 0int,
{
    match e {
        LiftInner::Add(l, r) => { lemma_side_stable(*l, keep_lifted); lemma_side_stable(*r, keep_lifted); },
        LiftInner::Sub(l, r) => { lemma_side_stable(*l, keep_lifted); lemma_side_stable(*r, keep_lifted); },
        LiftInner::Mul(l, r) => { lemma_side_stable(*l, keep_lifted); lemma_side_stable(*r, keep_lifted); },
        LiftInner::Neg(x) => lemma_side_stable(*x, keep_lifted),
        LiftInner::Square(x) => lemma_side_stable(*x, keep_lifted),
        LiftInner::Double(x) => lemma_side_stable(*x, keep_lifted),
        LiftInner::Invert(x) => lemma_side_stable(*x, keep_lifted),
        LiftInner::SqrtRatio(l, r) => { lemma_side_stable(*l, keep_lifted); lemma_side_stable(*r, keep_lifted); },
        LiftInner::CondSelect(c, l, r) => if c {
            lemma_remains_stable(*l, keep_lifted);
        } else {
            lemma_remains_stable(*r, keep_lifted);
        },
        _ => {},
    }
}

/// A simplified side keeps its concreteness and is its own simplified side.
proof fn lemma_side_stable<F: LiftField>(e: LiftInner<F>, keep_lifted: bool)
    ensures
        concrete(side_expr_of(e, keep_lifted), keep_lifted) == concrete(e, keep_lifted),
        side_expr_of(side_expr_of(e, keep_lifted), keep_lifted) == side_expr_of(e, keep_lifted),
    decreases e, 1int,
{
    if !concrete(e, keep_lifted) {
        lemma_remains_stable(e, keep_lifted);
    }
}

/// Simplification is idempotent: what remains of an expression after simplification is not
/// concrete, and simplifying it again leaves it as it is.
pub proof fn law_simplify_idempotent<F: LiftField>(e: LiftInner<F>, keep_lifted: bool)
    requires
        !concrete(e, keep_lifted),
    ensures
        !concrete(remains_of(e, keep_lifted), keep_lifted),
        remains_of(remains_of(e, keep_lifted), keep_lifted) == remains_of(e, keep_lifted),
{
    lemma_remains_stable(e, keep_lifted);
}

/// A symbolic field value: one of the field's named constants, a constant, or an expression
/// over constants and lifted values.
#[derive(Debug)]
pub enum Lift<F> {
    /// An expression.
    Assigned(Box<LiftInner<F>>),
    /// Zero.
    Zero,
    /// One.
    One,
    /// The inverse of two.
    TwoInv,
    /// The multiplicative generator.
    MultiplicativeGenerator,
    /// The root of unity.
    RootOfUnity,
    /// The inverse of the root of unity.
    RootOfUnityInv,
    /// The generator of the multiplicative subgroup of order `t`.
    Delta,
    /// A constant.
    Const(F),
}

/// The expression that a value stands for: named constants and constants are constants, of
/// the values the field gives them.
pub open spec fn lift_tree<F: LiftField>(l: Lift<F>) -> LiftInner<F> {
    match l {
        Lift::Assigned(t) => *t,
        Lift::Const(f) => LiftInner::Const(f),
        Lift::Zero => LiftInner::Const(F::field_named(NamedConstant::Zero)),
        Lift::One => LiftInner::Const(F::field_named(NamedConstant::One)),
        Lift::TwoInv => LiftInner::Const(F::field_named(NamedConstant::TwoInv)),
        Lift::MultiplicativeGenerator => LiftInner::Const(F::field_named(NamedConstant::MultiplicativeGenerator)),
        Lift::RootOfUnity => LiftInner::Const(F::field_named(NamedConstant::RootOfUnity)),
        Lift::RootOfUnityInv => LiftInner::Const(F::field_named(NamedConstant::RootOfUnityInv)),
        Lift::Delta => LiftInner::Const(F::field_named(NamedConstant::Delta)),
    }
}

impl<F: LiftField> Lift<F> {
    /// A constant value.
    pub fn from_const(f: F) -> (r: Self)
        ensures
            r == Lift::Const(f),
    {
        Lift::Const(f)
    }

    /// The expression that the value stands for: the expression itself, or the constant, or
    /// the value of the named constant in the field.
    pub fn tree(&self) -> (r: LiftInner<F>)
        ensures
            r == lift_tree(*self),
    {
        match self {
            Lift::Assigned(t) => (**t).duplicate(),
            Lift::Const(f) => LiftInner::Const(*f),
            Lift::Zero => LiftInner::Const(F::named(NamedConstant::Zero)),
            Lift::One => LiftInner::Const(F::named(NamedConstant::One)),
            Lift::TwoInv => LiftInner::Const(F::named(NamedConstant::TwoInv)),
            Lift::MultiplicativeGenerator => LiftInner::Const(F::named(NamedConstant::MultiplicativeGenerator)),
            Lift::RootOfUnity => LiftInner::Const(F::named(NamedConstant::RootOfUnity)),
            Lift::RootOfUnityInv => LiftInner::Const(F::named(NamedConstant::RootOfUnityInv)),
            Lift::Delta => LiftInner::Const(F::named(NamedConstant::Delta)),
        }
    }

    /// The opposite: the expression of the negation.
    pub fn neg(&self) -> (r: Self)
        ensures
            r == Lift::Assigned(Box::new(LiftInner::Neg(Box::new(lift_tree(*self))))),
    {
        Lift::Assigned(LiftInner::Neg(self.tree().boxed()).boxed())
    }

    /// The sum: the expression of the addition.
    pub fn add(&self, rhs: &Self) -> (r: Self)
        ensures
            r == Lift::Assigned(Box::new(LiftInner::Add(Box::new(lift_tree(*self)), Box::new(lift_tree(*rhs))))),
    {
        Lift::Assigned(LiftInner::Add(self.tree().boxed(), rhs.tree().boxed()).boxed())
    }

    /// The difference: the expression of the subtraction.
    pub fn sub(&self, rhs: &Self) -> (r: Self)
        ensures
            r == Lift::Assigned(Box::new(LiftInner::Sub(Box::new(lift_tree(*self)), Box::new(lift_tree(*rhs))))),
    {
        Lift::Assigned(LiftInner::Sub(self.tree().boxed(), rhs.tree().boxed()).boxed())
    }

    /// The product: the expression of the multiplication.
    pub fn mul(&self, rhs: &Self) -> (r: Self)
        ensures
            r == Lift::Assigned(Box::new(LiftInner::Mul(Box::new(lift_tree(*self)), Box::new(lift_tree(*rhs))))),
    {
        Lift::Assigned(LiftInner::Mul(self.tree().boxed(), rhs.tree().boxed()).boxed())
    }

    /// A copy of the value.
    pub fn duplicate(&self) -> (r: Self)
        ensures
            r == *self,
    {
        match self {
            Lift::Assigned(t) => Lift::Assigned((**t).duplicate().boxed()),
            Lift::Zero => Lift::Zero,
            Lift::One => Lift::One,
            Lift::TwoInv => Lift::TwoInv,
            Lift::MultiplicativeGenerator => Lift::MultiplicativeGenerator,
            Lift::RootOfUnity => Lift::RootOfUnity,
            Lift::RootOfUnityInv => Lift::RootOfUnityInv,
            Lift::Delta => Lift::Delta,
            Lift::Const(f) => Lift::Const(*f),
        }
    }

    /// The product of the values, as [`lift_product`] says: the first one times the second,
    /// and so on; zero when there is none.
    pub fn product(items: &Vec<Self>) -> (r: Self)
        ensures
            r == lift_product(items@),
    {
        if items.len() == 0 {
            return Lift::Zero;
        }
        let mut acc = items[0].duplicate();
        let mut i: usize = 1;
        while i < items.len()
            invariant
                1 <= i <= items@.len(),
                acc == lift_product(items@.subrange(0, i as int)),
            decreases items@.len() - i,
        {
            proof {
                assert(items@.subrange(0, i + 1).drop_last() =~= items@.subrange(0, i as int));
            }
            acc = acc.mul(&items[i]);
            i = i + 1;
        }
        proof {
            assert(items@.subrange(0, items@.len() as int) =~= items@);
        }
        acc
    }
}

/// The product of two values: the expression of the multiplication (see [`Lift::mul`]).
pub open spec fn lift_mul<F: LiftField>(a: Lift<F>, b: Lift<F>) -> Lift<F> {
    Lift::Assigned(Box::new(LiftInner::Mul(Box::new(lift_tree(a)), Box::new(lift_tree(b)))))
}

/// The product of the values, multiplied from the first one on; zero when there is none.
pub open spec fn lift_product<F: LiftField>(s: Seq<Lift<F>>) -> Lift<F>
    decreases s.len(),
{
    if s.len() == 0 {
        Lift::Zero
    } else if s.len() == 1 {
        s[0]
    } else {
        lift_mul(lift_product(s.drop_last()), s.last())
    }
}

/// Values that stand for field elements that may come from outside the circuit.
pub trait LiftLike: Sized {
    /// The field of the values.
    type Inner: LiftField;

    /// The expression that the value stands for.
    spec fn spec_tree(&self) -> LiftInner<Self::Inner>;

    /// The value simplified: the constant of its value when it simplifies to one, or else what
    /// remains of it, lifted values kept (see [`simplified`]).
    fn simplified(&self) -> (r: Self)
        ensures
            concrete(self.spec_tree(), true) ==> r.spec_tree() == LiftInner::Const(value_of(self.spec_tree())),
            !concrete(self.spec_tree(), true) ==> r.spec_tree() == remains_of(self.spec_tree(), true);

    /// The constant the value stands for, when every lifted value in it is known.
    fn concretized(&self) -> (r: Option<Self::Inner>)
        ensures
            r is Some <==> concrete(self.spec_tree(), false),
            r matches Some(v) ==> v == value_of(self.spec_tree());

    /// Whether a lifted value occurs in the value.
    fn is_symbolic(&self) -> (r: bool)
        ensures
            r == has_lift(self.spec_tree());

    /// A lifted value of unknown value, with the given identifier.
    fn lift(id: usize) -> (r: Self)
        ensures
            r.spec_tree() == LiftInner::<Self::Inner>::Lift(id, None);

    /// A lifted value of known value, with the given identifier.
    fn lift_value(id: usize, f: Self::Inner) -> (r: Self)
        ensures
            r.spec_tree() == LiftInner::Lift(id, Some(f));

    /// The value as an expression, named constants turned into their values.
    fn canonicalized(&self) -> (r: Self)
        ensures
            r.spec_tree() == self.spec_tree();
}

impl<F: LiftField> LiftLike for Lift<F> {
    type Inner = F;

    open spec fn spec_tree(&self) -> LiftInner<F> {
        lift_tree(*self)
    }

    fn simplified(&self) -> (r: Self) {
        let t = self.tree();
        Lift::Assigned(simplified(&t).boxed())
    }

    fn concretized(&self) -> (r: Option<F>) {
        let t = self.tree();
        concretized(&t)
    }

    fn is_symbolic(&self) -> (r: bool) {
        let t = self.tree();
        t.is_symbolic()
    }

    fn lift(id: usize) -> (r: Self) {
        Lift::Assigned(LiftInner::lift(id).boxed())
    }

    fn lift_value(id: usize, f: F) -> (r: Self) {
        Lift::Assigned(LiftInner::lift_value(id, f).boxed())
    }

    fn canonicalized(&self) -> (r: Self) {
        Lift::Assigned(self.tree().boxed())
    }
}

/// The expression that a value simplifies to, lifted values kept: the constant of its value
/// when it is concrete, else what remains of it (see [`simplified`]).
pub open spec fn simplified_tree<F: LiftField>(l: Lift<F>) -> LiftInner<F> {
    let t = lift_tree(l);
    if concrete(t, true) {
        LiftInner::Const(value_of(t))
    } else {
        remains_of(t, true)
    }
}

impl<F: LiftField + PartialEq> PartialEq for Lift<F> {
    /// Two values are equal when the expressions they simplify to are structurally equal (see
    /// [`lift_eq`]).
    fn eq(&self, other: &Self) -> (r: bool) {
        let a = simplified(&self.tree());
        let b = simplified(&other.tree());
        Unwrapped::new(&a) == Unwrapped::new(&b)
    }
}

impl<F: LiftField + PartialEq> vstd::std_specs::cmp::PartialEqSpecImpl for Lift<F> {
    open spec fn obeys_eq_spec() -> bool {
        F::obeys_eq_spec()
    }

    open spec fn eq_spec(&self, other: &Self) -> bool {
        lift_eq(simplified_tree(*self), simplified_tree(*other))
    }
}

/// Equality of values is symmetric and transitive wherever the equality of the field elements
/// is, and reflexive on the values whose simplified expression holds no conditional selection
/// and no lifted value whose value is unknown.
pub proof fn law_lift_equality<F: LiftField + PartialEq>(a: Lift<F>, b: Lift<F>, c: Lift<F>)
    requires
        forall|x: F| #[trigger] x.eq_spec(&x),
        forall|x: F, y: F| #[trigger] x.eq_spec(&y) ==> y.eq_spec(&x),
        forall|x: F, y: F, z: F| #[trigger] x.eq_spec(&y) && #[trigger] y.eq_spec(&z) ==> x.eq_spec(&z),
    ensures
        self_comparable(simplified_tree(a)) <==> a.eq_spec(&a),
        a.eq_spec(&b) ==> b.eq_spec(&a),
        a.eq_spec(&b) && b.eq_spec(&c) ==> a.eq_spec(&c),
{
    law_lift_eq_equivalence(simplified_tree(a), simplified_tree(b), simplified_tree(c));
}

} // verus!

//! Polynomial expressions over the cells of a circuit, as the circuit's gates and lookups
//! state them.
use vstd::prelude::*;
use crate::felt::Felt;

verus! {

/// Offset of a queried row relative to the current row.
#[derive(Debug, Clone, Copy, PartialEq, Eq, Structural)]
pub struct Rotation(pub i32);

impl Rotation {
    /// The current row.
    pub fn cur() -> (r: Rotation)
        ensures
            r.0 == 0,
    {
        Rotation(0)
    }

    /// The next row.
    pub fn next() -> (r: Rotation)
        ensures
            r.0 == 1,
    {
        Rotation(1)
    }

    /// The previous row.
    pub fn prev() -> (r: Rotation)
        ensures
            r.0 == -1,
    {
        Rotation(-1)
    }
}

/// A query to a cell: a column and a rotation.
#[derive(Debug, Clone, Copy, PartialEq, Eq, Structural)]
pub struct Query {
    /// Index of the queried column.
    pub column_index: usize,
    /// Offset of the queried row.
    pub rotation: Rotation,
}

/// A selector: its index, and whether it is simple.
#[derive(Debug, Clone, Copy, PartialEq, Eq, Structural, Hash)]
pub struct Selector {
    /// Index of the selector.
    pub index: usize,
    /// Whether the selector is simple.
    pub simple: bool,
}

/// A polynomial expression over the cells of a circuit.
#[derive(Debug, PartialEq)]
pub enum Expression {
    /// A constant.
    Constant(Felt),
    /// A selector.
    Selector(Selector),
    /// A query to a fixed cell.
    Fixed(Query),
    /// A query to an advice cell.
    Advice(Query),
    /// A query to an instance cell.
    Instance(Query),
    /// A challenge, by its index.
    Challenge(usize),
    /// The negation of an expression.
    Negated(Box<Expression>),
    /// The sum of two expressions.
    Sum(Box<Expression>, Box<Expression>),
    /// The product of two expressions.
    Product(Box<Expression>, Box<Expression>),
    /// An expression multiplied by a constant.
    Scaled(Box<Expression>, Felt),
}

impl Expression {
    /// The constant `n`.
    pub fn constant(n: u64) -> (r: Expression)
        ensures
            r matches Expression::Constant(f) && f@ == n,
    {
        Expression::Constant(Felt::from_u64(n))
    }

    /// The sum of two expressions.
    pub fn add(self, rhs: Expression) -> (r: Expression)
        ensures
            r == Expression::Sum(Box::new(self), Box::new(rhs)),
    {
        Expression::Sum(Box::new(self), Box::new(rhs))
    }

    /// The product of two expressions.
    pub fn mul(self, rhs: Expression) -> (r: Expression)
        ensures
            r == Expression::Product(Box::new(self), Box::new(rhs)),
    {
        Expression::Product(Box::new(self), Box::new(rhs))
    }
}

/// Model of a polynomial expression: constants are natural numbers.
pub enum Poly {
    Constant(nat),
    Selector(Selector),
    Fixed(Query),
    Advice(Query),
    Instance(Query),
    Challenge(usize),
    Negated(Box<Poly>),
    Sum(Box<Poly>, Box<Poly>),
    Product(Box<Poly>, Box<Poly>),
    Scaled(Box<Poly>, nat),
}

/// The model of an expression.
pub open spec fn poly_view(e: Expression) -> Poly
    decreases e,
{
    match e {
        Expression::Constant(f) => Poly::Constant(f@),
        Expression::Selector(s) => Poly::Selector(s),
        Expression::Fixed(q) => Poly::Fixed(q),
        Expression::Advice(q) => Poly::Advice(q),
        Expression::Instance(q) => Poly::Instance(q),
        Expression::Challenge(c) => Poly::Challenge(c),
        Expression::Negated(x) => Poly::Negated(Box::new(poly_view(*x))),
        Expression::Sum(x, y) => Poly::Sum(Box::new(poly_view(*x)), Box::new(poly_view(*y))),
        Expression::Product(x, y) => Poly::Product(Box::new(poly_view(*x)), Box::new(poly_view(*y))),
        Expression::Scaled(x, c) => Poly::Scaled(Box::new(poly_view(*x)), c@),
    }
}

impl View for Expression {
    type V = Poly;

    open spec fn view(&self) -> Poly {
        poly_view(*self)
    }
}

impl Clone for Expression {
    /// A copy of the expression, with constants of the same values.
    fn clone(&self) -> (r: Expression)
        ensures
            r@ == self@,
        decreases self,
    {
        match self {
            Expression::Constant(f) => Expression::Constant(f.duplicate()),
            Expression::Selector(s) => Expression::Selector(*s),
            Expression::Fixed(q) => Expression::Fixed(*q),
            Expression::Advice(q) => Expression::Advice(*q),
            Expression::Instance(q) => Expression::Instance(*q),
            Expression::Challenge(c) => Expression::Challenge(*c),
            Expression::Negated(x) => Expression::Negated(Box::new((**x).clone())),
            Expression::Sum(x, y) => Expression::Sum(Box::new((**x).clone()), Box::new((**y).clone())),
            Expression::Product(x, y) => Expression::Product(Box::new((**x).clone()), Box::new((**y).clone())),
            Expression::Scaled(x, c) => Expression::Scaled(Box::new((**x).clone()), c.duplicate()),
        }
    }
}

} // verus!

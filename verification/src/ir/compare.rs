//! Comparison operators.
use vstd::prelude::*;

verus! {

/// Comparison operator between two arithmetic expressions.
#[derive(Clone, Copy, Debug, PartialEq, Eq, Structural)]
pub enum CmpOp {
    /// Equality.
    Eq,
    /// Less than.
    Lt,
    /// Less or equal.
    Le,
    /// Greater than.
    Gt,
    /// Greater or equal.
    Ge,
    /// Not equal.
    Ne,
}

/// Truth value of `lhs op rhs` on integers.
pub open spec fn op_holds(op: CmpOp, lhs: int, rhs: int) -> bool {
    match op {
        CmpOp::Eq => lhs == rhs,
        CmpOp::Lt => lhs < rhs,
        CmpOp::Le => lhs <= rhs,
        CmpOp::Gt => lhs > rhs,
        CmpOp::Ge => lhs >= rhs,
        CmpOp::Ne => lhs != rhs,
    }
}

/// The operator whose truth value is the negation of `op`'s.
pub open spec fn negated_op(op: CmpOp) -> CmpOp {
    match op {
        CmpOp::Eq => CmpOp::Ne,
        CmpOp::Lt => CmpOp::Ge,
        CmpOp::Le => CmpOp::Gt,
        CmpOp::Gt => CmpOp::Le,
        CmpOp::Ge => CmpOp::Lt,
        CmpOp::Ne => CmpOp::Eq,
    }
}

impl CmpOp {
    /// The operator whose truth value is the negation of this one's.
    pub fn negate(self) -> (r: CmpOp)
        ensures
            r == negated_op(self),
            forall|a: int, b: int| op_holds(r, a, b) == !op_holds(self, a, b),
    {
        match self {
            CmpOp::Eq => CmpOp::Ne,
            CmpOp::Lt => CmpOp::Ge,
            CmpOp::Le => CmpOp::Gt,
            CmpOp::Gt => CmpOp::Le,
            CmpOp::Ge => CmpOp::Lt,
            CmpOp::Ne => CmpOp::Eq,
        }
    }
}

/// How the operators relate: `<=` holds when `<` or `==` does, `>` and `>=` are `<` and `<=`
/// with the sides swapped, and `!=` is the negation of `==`; in particular `<=` and `>=` hold
/// of equal sides and `<` and `>` do not.
pub proof fn law_comparison_operators(a: int, b: int)
    ensures
        op_holds(CmpOp::Eq, a, b) == (a == b),
        op_holds(CmpOp::Lt, a, b) == (a < b),
        op_holds(CmpOp::Le, a, b) == (op_holds(CmpOp::Lt, a, b) || op_holds(CmpOp::Eq, a, b)),
        op_holds(CmpOp::Gt, a, b) == op_holds(CmpOp::Lt, b, a),
        op_holds(CmpOp::Ge, a, b) == op_holds(CmpOp::Le, b, a),
        op_holds(CmpOp::Ne, a, b) == !op_holds(CmpOp::Eq, a, b),
        op_holds(CmpOp::Le, a, a) && op_holds(CmpOp::Ge, a, a),
        !op_holds(CmpOp::Lt, a, a) && !op_holds(CmpOp::Gt, a, a),
        op_holds(CmpOp::Lt, a, b) || op_holds(CmpOp::Eq, a, b) || op_holds(CmpOp::Gt, a, b),
{
}

} // verus!

//! Functions related to canonicalization of the IR.
use vstd::prelude::*;
use vstd::arithmetic::div_mod::{lemma_sub_mod_noop, lemma_small_mod};
use crate::func_io::FuncIO;
use crate::ir::aexpr::{Aexpr, IRAexpr, eval, is_const};
use crate::ir::compare::{CmpOp, op_holds};

verus! {

/// The rewrite of the constraint `lhs op rhs`, if one of the known patterns matches:
/// `(= (+ X (- Y)) 0)` and `(= (* 1 (+ X (- Y))) 0)` both become `(= X Y)`.
pub open spec fn canonical_constraint(op: CmpOp, lhs: Aexpr, rhs: Aexpr) -> Option<(CmpOp, Aexpr, Aexpr)> {
    if op == CmpOp::Eq && is_const(rhs, 0) {
        match lhs {
            Aexpr::Sum(x, s) => match *s {
                Aexpr::Negated(y) => Some((CmpOp::Eq, *x, *y)),
                _ => None,
            },
            Aexpr::Product(m, s) => if is_const(*m, 1) {
                match *s {
                    Aexpr::Sum(x, t) => match *t {
                        Aexpr::Negated(y) => Some((CmpOp::Eq, *x, *y)),
                        _ => None,
                    },
                    _ => None,
                }
            } else {
                None
            },
            _ => None,
        }
    } else {
        None
    }
}

/// A rewritten constraint has the same truth value as the original one in the field of order
/// `p`, whatever the values of the variables.
pub proof fn lemma_canonical_constraint_sound(
    op: CmpOp,
    lhs: Aexpr,
    rhs: Aexpr,
    p: nat,
    env: spec_fn(FuncIO) -> int,
)
    requires
        p > 0,
        canonical_constraint(op, lhs, rhs) is Some,
    ensures
        ({
            let (o, a, b) = canonical_constraint(op, lhs, rhs)->0;
            op_holds(o, eval(a, env) % (p as int), eval(b, env) % (p as int))
                == op_holds(op, eval(lhs, env) % (p as int), eval(rhs, env) % (p as int))
        }),
{
    let pi = p as int;
    let (o, a, b) = canonical_constraint(op, lhs, rhs)->0;
    let x = eval(a, env);
    let y = eval(b, env);
    lemma_small_mod(0, p);
    assert(eval(lhs, env) == x + (-y)) by {
        match lhs {
            Aexpr::Sum(xx, s) => {
                assert(eval(*s, env) == -y);
            },
            Aexpr::Product(m, s) => {
                if let Aexpr::Sum(xx, t) = *s {
                    assert(eval(*t, env) == -y);
                    assert(eval(*s, env) == x + (-y));
                }
                let es = eval(*s, env);
                assert(eval(*m, env) == 1);
                assert(1 * es == es) by (nonlinear_arith);
            },
            _ => {},
        }
    }
    lemma_sub_mod_noop(x, y, pi);
    if x % pi == y % pi {
        assert((x % pi - y % pi) == 0);
    } else {
        assert(0 <= x % pi < pi);
        assert(0 <= y % pi < pi);
        assert(-pi < x % pi - y % pi < pi);
        if (x % pi - y % pi) % pi == 0 {
            assert(x % pi - y % pi != 0);
            if x % pi - y % pi > 0 {
                lemma_small_mod((x % pi - y % pi) as nat, p);
            } else {
                vstd::arithmetic::div_mod::lemma_mod_add_multiples_vanish(x % pi - y % pi, pi);
                lemma_small_mod((pi + (x % pi - y % pi)) as nat, p);
            }
        }
    }
}

/// Matches the constraint `lhs op rhs` against the patterns of [`canonical_constraint`] and
/// returns its rewrite if one matches.
pub fn canonicalize_constraint(op: CmpOp, lhs: &IRAexpr, rhs: &IRAexpr) -> (r: Option<
    (CmpOp, IRAexpr, IRAexpr),
>)
    ensures
        r is None <==> canonical_constraint(op, lhs@, rhs@) is None,
        r matches Some((o, a, b)) ==> canonical_constraint(op, lhs@, rhs@) == Some(
            (o, a@, b@),
        ),
{
    let zero = crate::felt::Felt::zero();
    let one = crate::felt::Felt::from_u64(1);
    if op != CmpOp::Eq {
        return None;
    }
    let rhs_zero = match rhs {
        IRAexpr::Constant(c) => c.equals(&zero),
        _ => false,
    };
    if !rhs_zero {
        proof {
            if let IRAexpr::Constant(c) = rhs {
                assert(rhs@ == Aexpr::Constant(c@));
            }
        }
        return None;
    }
    proof {
        if let IRAexpr::Constant(c) = rhs {
            assert(rhs@ == Aexpr::Constant(c@));
        }
        assert(is_const(rhs@, 0));
    }
    match lhs {
        IRAexpr::Sum(x, s) => match &**s {
            IRAexpr::Negated(y) => {
                proof {
                    assert(s@ == Aexpr::Negated(Box::new(y@)));
                    assert(lhs@ == Aexpr::Sum(Box::new(x@), Box::new(s@)));
                    assert(canonical_constraint(op, lhs@, rhs@) == Some((CmpOp::Eq, x@, y@)));
                }
                let a = x.duplicate();
                let b = y.duplicate();
                assert(a@ == x@);
                assert(b@ == y@);
                let r = Some((CmpOp::Eq, a, b));
                assert(canonical_constraint(op, lhs@, rhs@) == Some((CmpOp::Eq, a@, b@)));
                r
            },
            _ => {
                proof {
                    assert(!(s@ is Negated));
                    assert(lhs@ == Aexpr::Sum(Box::new(x@), Box::new(s@)));
                    assert(canonical_constraint(op, lhs@, rhs@) is None);
                }
                None
            },
        },
        IRAexpr::Product(m, s) => {
            let m_one = match &**m {
                IRAexpr::Constant(c) => c.equals(&one),
                _ => false,
            };
            if m_one {
                match &**s {
                    IRAexpr::Sum(x, t) => match &**t {
                        IRAexpr::Negated(y) => {
                            proof {
                                assert(t@ == Aexpr::Negated(Box::new(y@)));
                                assert(s@ == Aexpr::Sum(Box::new(x@), Box::new(t@)));
                                assert(lhs@ == Aexpr::Product(Box::new(m@), Box::new(s@)));
                                if let IRAexpr::Constant(c) = &**m {
                                    assert(m@ == Aexpr::Constant(c@));
                                }
                            }
                            Some((CmpOp::Eq, x.duplicate(), y.duplicate()))
                        },
                        _ => {
                            proof {
                                assert(!(t@ is Negated));
                                assert(s@ == Aexpr::Sum(Box::new(x@), Box::new(t@)));
                                assert(lhs@ == Aexpr::Product(Box::new(m@), Box::new(s@)));
                            }
                            None
                        },
                    },
                    _ => {
                        proof {
                            assert(!(s@ is Sum));
                            assert(lhs@ == Aexpr::Product(Box::new(m@), Box::new(s@)));
                        }
                        None
                    },
                }
            } else {
                proof {
                    assert(lhs@ == Aexpr::Product(Box::new(m@), Box::new(s@)));
                    if let IRAexpr::Constant(c) = &**m {
                        assert(m@ == Aexpr::Constant(c@));
                    }
                }
                None
            }
        },
        _ => {
            proof {
                assert(!(lhs@ is Sum) && !(lhs@ is Product));
            }
            None
        },
    }
}

} // verus!

//! Arithmetic expressions over the variables of a function.
use vstd::prelude::*;
use vstd::arithmetic::div_mod::{
    lemma_add_mod_noop, lemma_mod_add_multiples_vanish, lemma_mod_bound, lemma_mod_twice,
    lemma_mul_mod_noop, lemma_small_mod, lemma_sub_mod_noop,
};
use crate::felt::Felt;
use crate::func_io::{FuncIO, func_io_equivalent, func_io_eqv, relativize_advice_cell, relativized};

verus! {

/// Represents an arithmetic expression.
#[derive(Debug)]
pub enum IRAexpr {
    /// Constant value.
    Constant(Felt),
    /// IO element of the circuit; inputs, outputs, cells, etc.
    IO(FuncIO),
    /// Represents the negation of the inner expression.
    Negated(Box<IRAexpr>),
    /// Represents the sum of the inner expressions.
    Sum(Box<IRAexpr>, Box<IRAexpr>),
    /// Represents the product of the inner expresions.
    Product(Box<IRAexpr>, Box<IRAexpr>),
}

/// Mathematical model of an [`IRAexpr`]: constants are natural numbers.
pub enum Aexpr {
    Constant(nat),
    IO(FuncIO),
    Negated(Box<Aexpr>),
    Sum(Box<Aexpr>, Box<Aexpr>),
    Product(Box<Aexpr>, Box<Aexpr>),
}

/// The model of an expression.
pub open spec fn aexpr_view(e: IRAexpr) -> Aexpr
    decreases e,
{
    match e {
        IRAexpr::Constant(f) => Aexpr::Constant(f@),
        IRAexpr::IO(io) => Aexpr::IO(io),
        IRAexpr::Negated(x) => Aexpr::Negated(Box::new(aexpr_view(*x))),
        IRAexpr::Sum(l, r) => Aexpr::Sum(Box::new(aexpr_view(*l)), Box::new(aexpr_view(*r))),
        IRAexpr::Product(l, r) => Aexpr::Product(
            Box::new(aexpr_view(*l)),
            Box::new(aexpr_view(*r)),
        ),
    }
}

impl View for IRAexpr {
    type V = Aexpr;

    open spec fn view(&self) -> Aexpr {
        aexpr_view(*self)
    }
}

/// Integer value of an expression when the variables take the values given by `env`.
pub open spec fn eval(e: Aexpr, env: spec_fn(FuncIO) -> int) -> int
    decreases e,
{
    match e {
        Aexpr::Constant(c) => c as int,
        Aexpr::IO(io) => env(io),
        Aexpr::Negated(x) => -eval(*x, env),
        Aexpr::Sum(l, r) => eval(*l, env) + eval(*r, env),
        Aexpr::Product(l, r) => eval(*l, env) * eval(*r, env),
    }
}

/// The value of an expression follows the arithmetic of the integers: a sum adds, a product
/// multiplies, a negation is the opposite, so `x + (-y)` is `x - y`; adding zero and
/// multiplying by one change nothing, and multiplying by zero gives zero.
pub proof fn law_eval_arithmetic(x: Aexpr, y: Aexpr, env: spec_fn(FuncIO) -> int)
    ensures
        eval(Aexpr::Sum(Box::new(x), Box::new(y)), env) == eval(x, env) + eval(y, env),
        eval(Aexpr::Product(Box::new(x), Box::new(y)), env) == eval(x, env) * eval(y, env),
        eval(Aexpr::Negated(Box::new(x)), env) + eval(x, env) == 0,
        eval(Aexpr::Sum(Box::new(x), Box::new(Aexpr::Negated(Box::new(y)))), env) == eval(x, env) - eval(y, env),
        eval(Aexpr::Sum(Box::new(x), Box::new(Aexpr::Constant(0))), env) == eval(x, env),
        eval(Aexpr::Product(Box::new(Aexpr::Constant(1)), Box::new(x)), env) == eval(x, env),
        eval(Aexpr::Product(Box::new(Aexpr::Constant(0)), Box::new(x)), env) == 0,
        forall|io: FuncIO| #[trigger] eval(Aexpr::IO(io), env) == env(io),
        forall|c: nat| #[trigger] eval(Aexpr::Constant(c), env) == c,
{
    let n = Aexpr::Negated(Box::new(y));
    assert(eval(n, env) == -eval(y, env));
    assert(eval(Aexpr::Constant(0), env) == 0);
    assert(eval(Aexpr::Constant(1), env) == 1);
}

/// Whether the expression is a constant with the given value.
pub open spec fn is_const(e: Aexpr, v: int) -> bool {
    e matches Aexpr::Constant(c) && c == v
}

/// The result of folding the constants of an expression in the field of order `p`.
///
/// Constants greater than `p` are reduced modulo `p`; negations, sums and products of
/// constants are evaluated; `x + 0`, `x * 1`, `x * 0` and `x * (p - 1)` are simplified
/// (in both orders) to `x`, `x`, `0` and `-x`.
pub open spec fn fold(e: Aexpr, p: nat) -> Aexpr
    decreases e,
{
    match e {
        Aexpr::Constant(c) => Aexpr::Constant(if c > p { c % p } else { c }),
        Aexpr::IO(io) => Aexpr::IO(io),
        Aexpr::Negated(x) => {
            let x2 = fold(*x, p);
            if let Aexpr::Constant(c) = x2 {
                if c <= p {
                    Aexpr::Constant(((p - c) as nat) % p)
                } else {
                    Aexpr::Negated(Box::new(x2))
                }
            } else {
                Aexpr::Negated(Box::new(x2))
            }
        },
        Aexpr::Sum(l, r) => {
            let a = fold(*l, p);
            let b = fold(*r, p);
            if a is Constant && b is Constant {
                Aexpr::Constant((a->Constant_0 + b->Constant_0) % p)
            } else if !(a is Constant) && is_const(b, 0) {
                a
            } else if is_const(a, 0) && !(b is Constant) {
                b
            } else {
                Aexpr::Sum(Box::new(a), Box::new(b))
            }
        },
        Aexpr::Product(l, r) => {
            let a = fold(*l, p);
            let b = fold(*r, p);
            if a is Constant && b is Constant {
                Aexpr::Constant((a->Constant_0 * b->Constant_0) % p)
            } else if !(a is Constant) && is_const(b, 1) {
                a
            } else if is_const(a, 1) && !(b is Constant) {
                b
            } else if !(a is Constant) && is_const(b, 0) {
                Aexpr::Constant(0)
            } else if is_const(a, 0) && !(b is Constant) {
                Aexpr::Constant(0)
            } else if !(a is Constant) && is_const(b, p - 1) {
                Aexpr::Negated(Box::new(a))
            } else if is_const(a, p - 1) && !(b is Constant) {
                Aexpr::Negated(Box::new(b))
            } else {
                Aexpr::Product(Box::new(a), Box::new(b))
            }
        },
    }
}

proof fn lemma_neg_congruent(a: int, b: int, p: int)
    requires
        p > 0,
        a % p == b % p,
    ensures
        (-a) % p == (-b) % p,
{
    lemma_sub_mod_noop(0, a, p);
    lemma_sub_mod_noop(0, b, p);
}

proof fn lemma_add_congruent(a: int, b: int, c: int, d: int, p: int)
    requires
        p > 0,
        a % p == c % p,
        b % p == d % p,
    ensures
        (a + b) % p == (c + d) % p,
{
    lemma_add_mod_noop(a, b, p);
    lemma_add_mod_noop(c, d, p);
}

proof fn lemma_mul_congruent(a: int, b: int, c: int, d: int, p: int)
    requires
        p > 0,
        a % p == c % p,
        b % p == d % p,
    ensures
        (a * b) % p == (c * d) % p,
{
    lemma_mul_mod_noop(a, b, p);
    lemma_mul_mod_noop(c, d, p);
}

/// Folding constants does not change the value of an expression modulo `p`, whatever the
/// values of its variables.
pub proof fn lemma_fold_sound(e: Aexpr, p: nat, env: spec_fn(FuncIO) -> int)
    requires
        p > 0,
    ensures
        eval(fold(e, p), env) % (p as int) == eval(e, env) % (p as int),
    decreases e,
{
    let pi = p as int;
    match e {
        Aexpr::Constant(c) => {
            if c > p {
                lemma_mod_twice(c as int, pi);
                assert((c % p) as int == (c as int) % pi);
                assert(eval(fold(e, p), env) == (c as int) % pi);
                assert(eval(fold(e, p), env) % pi == eval(e, env) % pi);
            } else {
                assert(fold(e, p) == e);
            }
        },
        Aexpr::IO(_) => {
            assert(eval(fold(e, p), env) % pi == eval(e, env) % pi);
        },
        Aexpr::Negated(x) => {
            lemma_fold_sound(*x, p, env);
            let x2 = fold(*x, p);
            lemma_neg_congruent(eval(x2, env), eval(*x, env), pi);
            if let Aexpr::Constant(c) = x2 {
                if c <= p {
                    lemma_mod_twice(pi - c, pi);
                    lemma_mod_add_multiples_vanish(-(c as int), pi);
                }
            }
            assert(eval(fold(e, p), env) % pi == eval(e, env) % pi);
        },
        Aexpr::Sum(l, r) => {
            lemma_fold_sound(*l, p, env);
            lemma_fold_sound(*r, p, env);
            let a = fold(*l, p);
            let b = fold(*r, p);
            lemma_add_congruent(eval(a, env), eval(b, env), eval(*l, env), eval(*r, env), pi);
            if a is Constant && b is Constant {
                lemma_mod_twice((a->Constant_0 + b->Constant_0) as int, pi);
            }
            assert(eval(fold(e, p), env) % pi == eval(e, env) % pi);
        },
        Aexpr::Product(l, r) => {
            lemma_fold_sound(*l, p, env);
            lemma_fold_sound(*r, p, env);
            let a = fold(*l, p);
            let b = fold(*r, p);
            let ea = eval(a, env);
            let eb = eval(b, env);
            lemma_mul_congruent(ea, eb, eval(*l, env), eval(*r, env), pi);
            if a is Constant && b is Constant {
                let ca = a->Constant_0;
                let cb = b->Constant_0;
                lemma_mod_twice((ca * cb) as int, pi);
                assert(((ca * cb) % p) as int == (ca as int * cb as int) % pi);
            } else if !(a is Constant) && is_const(b, 1) {
                assert(eb == 1);
                assert(ea * eb == ea) by (nonlinear_arith) requires eb == 1;
            } else if is_const(a, 1) && !(b is Constant) {
                assert(ea == 1);
                assert(ea * eb == eb) by (nonlinear_arith) requires ea == 1;
            } else if !(a is Constant) && is_const(b, 0) {
                assert(eb == 0);
                assert(ea * eb == 0) by (nonlinear_arith) requires eb == 0;
            } else if is_const(a, 0) && !(b is Constant) {
                assert(ea == 0);
                assert(ea * eb == 0) by (nonlinear_arith) requires ea == 0;
            } else if !(a is Constant) && is_const(b, p - 1) {
                assert(ea * (pi - 1) == pi * ea + (-ea)) by (nonlinear_arith);
                lemma_mod_add_multiples_vanish_mul(ea, -ea, pi);
            } else if is_const(a, p - 1) && !(b is Constant) {
                assert((pi - 1) * eb == pi * eb + (-eb)) by (nonlinear_arith);
                lemma_mod_add_multiples_vanish_mul(eb, -eb, pi);
            }
            assert(eval(fold(e, p), env) % pi == eval(e, env) % pi);
        },
    }
}

proof fn lemma_mod_add_multiples_vanish_mul(k: int, b: int, p: int)
    requires
        p > 0,
    ensures
        (p * k + b) % p == b % p,
{
    vstd::arithmetic::div_mod::lemma_mod_multiples_vanish(k, b, p);
}

/// Every constant of the expression is at most `bound`.
pub open spec fn consts_at_most(e: Aexpr, bound: nat) -> bool
    decreases e,
{
    match e {
        Aexpr::Constant(c) => c <= bound,
        Aexpr::IO(_) => true,
        Aexpr::Negated(x) => consts_at_most(*x, bound),
        Aexpr::Sum(l, r) => consts_at_most(*l, bound) && consts_at_most(*r, bound),
        Aexpr::Product(l, r) => consts_at_most(*l, bound) && consts_at_most(*r, bound),
    }
}

/// No constant of the expression equals `v`.
pub open spec fn no_const_equal(e: Aexpr, v: nat) -> bool
    decreases e,
{
    match e {
        Aexpr::Constant(c) => c != v,
        Aexpr::IO(_) => true,
        Aexpr::Negated(x) => no_const_equal(*x, v),
        Aexpr::Sum(l, r) => no_const_equal(*l, v) && no_const_equal(*r, v),
        Aexpr::Product(l, r) => no_const_equal(*l, v) && no_const_equal(*r, v),
    }
}

/// After folding, every constant is at most `p`, and below `p` unless the expression had a
/// constant equal to `p` (such a constant is not reduced).
pub proof fn lemma_fold_reduces(e: Aexpr, p: nat)
    requires
        p > 0,
    ensures
        consts_at_most(fold(e, p), p),
        no_const_equal(e, p) ==> consts_at_most(fold(e, p), (p - 1) as nat),
    decreases e,
{
    let pi = p as int;
    match e {
        Aexpr::Constant(c) => {
            if c > p {
                lemma_mod_bound(c as int, pi);
            }
        },
        Aexpr::IO(_) => {},
        Aexpr::Negated(x) => {
            lemma_fold_reduces(*x, p);
            let x2 = fold(*x, p);
            if let Aexpr::Constant(c) = x2 {
                if c <= p {
                    lemma_mod_bound(pi - c, pi);
                }
            }
        },
        Aexpr::Sum(l, r) => {
            lemma_fold_reduces(*l, p);
            lemma_fold_reduces(*r, p);
            let a = fold(*l, p);
            let b = fold(*r, p);
            if a is Constant && b is Constant {
                lemma_mod_bound((a->Constant_0 + b->Constant_0) as int, pi);
            }
        },
        Aexpr::Product(l, r) => {
            lemma_fold_reduces(*l, p);
            lemma_fold_reduces(*r, p);
            let a = fold(*l, p);
            let b = fold(*r, p);
            if a is Constant && b is Constant {
                lemma_mod_bound((a->Constant_0 * b->Constant_0) as int, pi);
            }
        },
    }
}

impl IRAexpr {
    /// Returns `Some(_)` if the expression is a constant value. None otherwise.
    pub fn const_value(&self) -> (r: Option<Felt>)
        ensures
            self is Constant <==> r is Some,
            r matches Some(f) ==> self@ == Aexpr::Constant(f@),
    {
        match self {
            IRAexpr::Constant(f) => Some(f.duplicate()),
            _ => None,
        }
    }

    /// Whether the expression is a constant.
    pub fn is_constant(&self) -> (r: bool)
        ensures
            r == (self@ is Constant),
            r == (self is Constant),
    {
        match self {
            IRAexpr::Constant(_) => true,
            _ => false,
        }
    }

    /// Whether the expression is a constant with the given value.
    fn is_const_value(&self, v: &Felt) -> (r: bool)
        ensures
            r == is_const(self@, v@ as int),
    {
        match self {
            IRAexpr::Constant(f) => f.equals(v),
            _ => false,
        }
    }

    /// A deep copy of the expression.
    pub fn duplicate(&self) -> (r: IRAexpr)
        ensures
            r@ == self@,
        decreases self,
    {
        match self {
            IRAexpr::Constant(f) => IRAexpr::Constant(f.duplicate()),
            IRAexpr::IO(io) => IRAexpr::IO(*io),
            IRAexpr::Negated(x) => IRAexpr::Negated(Box::new(x.duplicate())),
            IRAexpr::Sum(l, r) => IRAexpr::Sum(Box::new(l.duplicate()), Box::new(r.duplicate())),
            IRAexpr::Product(l, r) => IRAexpr::Product(
                Box::new(l.duplicate()),
                Box::new(r.duplicate()),
            ),
        }
    }

    /// The expression with its constants folded in the field of order `prime`.
    pub fn folded(self, prime: &Felt) -> (r: IRAexpr)
        requires
            prime@ > 0,
        ensures
            r@ == fold(self@, prime@),
        decreases self,
    {
        let ghost p = prime@;
        match self {
            IRAexpr::Constant(f) => {
                let mut f = f;
                f.rem_assign(prime);
                IRAexpr::Constant(f)
            },
            IRAexpr::IO(io) => IRAexpr::IO(io),
            IRAexpr::Negated(x) => {
                let x2 = (*x).folded(prime);
                match x2 {
                    IRAexpr::Constant(c) => {
                        match prime.sub(&c) {
                            Some(d) => IRAexpr::Constant(d.rem(prime)),
                            None => IRAexpr::Negated(Box::new(IRAexpr::Constant(c))),
                        }
                    },
                    other => IRAexpr::Negated(Box::new(other)),
                }
            },
            IRAexpr::Sum(l, r) => {
                let a = (*l).folded(prime);
                let b = (*r).folded(prime);
                let zero = Felt::zero();
                match (a, b) {
                    (IRAexpr::Constant(x), IRAexpr::Constant(y)) => {
                        IRAexpr::Constant(x.add(&y).rem(prime))
                    },
                    (a, b) => {
                        if !a.is_constant() && b.is_const_value(&zero) {
                            a
                        } else if a.is_const_value(&zero) && !b.is_constant() {
                            b
                        } else {
                            IRAexpr::Sum(Box::new(a), Box::new(b))
                        }
                    },
                }
            },
            IRAexpr::Product(l, r) => {
                let minus_one = match prime.sub(&Felt::from_u64(1)) {
                    Some(m) => m,
                    None => Felt::zero(),
                };
                let a = (*l).folded(prime);
                let b = (*r).folded(prime);
                let zero = Felt::zero();
                let one = Felt::from_u64(1);
                match (a, b) {
                    (IRAexpr::Constant(x), IRAexpr::Constant(y)) => {
                        IRAexpr::Constant(x.mul(&y).rem(prime))
                    },
                    (a, b) => {
                        let ac = a.is_constant();
                        let bc = b.is_constant();
                        if !ac && b.is_const_value(&one) {
                            a
                        } else if a.is_const_value(&one) && !bc {
                            b
                        } else if !ac && b.is_const_value(&zero) {
                            IRAexpr::Constant(Felt::zero())
                        } else if a.is_const_value(&zero) && !bc {
                            IRAexpr::Constant(Felt::zero())
                        } else if !ac && b.is_const_value(&minus_one) {
                            IRAexpr::Negated(Box::new(a))
                        } else if a.is_const_value(&minus_one) && !bc {
                            IRAexpr::Negated(Box::new(b))
                        } else {
                            IRAexpr::Product(Box::new(a), Box::new(b))
                        }
                    },
                }
            },
        }
    }

    /// Folds the expression if the values are constant, in the field of order `prime`.
    ///
    /// The folded expression has the same value modulo `prime` as the original one, whatever
    /// the values of the variables.
    pub fn constant_fold(&mut self, prime: &Felt)
        requires
            prime@ > 0,
        ensures
            final(self)@ == fold(old(self)@, prime@),
            forall|env: spec_fn(FuncIO) -> int|
                #![trigger eval(final(self)@, env)]
                eval(final(self)@, env) % (prime@ as int) == eval(old(self)@, env) % (
                prime@ as int),
    {
        let mut tmp = IRAexpr::IO(FuncIO::Temp(0));
        std::mem::swap(&mut tmp, self);
        let r = tmp.folded(prime);
        *self = r;
        proof {
            assert forall|env: spec_fn(FuncIO) -> int|
                #![trigger eval(self@, env)]
                eval(self@, env) % (prime@ as int) == eval(tmp@, env) % (prime@ as int) by {
                lemma_fold_sound(tmp@, prime@, env);
            }
        }
    }
}

impl Clone for IRAexpr {
    fn clone(&self) -> (r: IRAexpr)
        ensures
            r@ == self@,
    {
        self.duplicate()
    }
}

/// Two expressions are equivalent when they have the same shape, equal constants and
/// equivalent variables (see [`func_io_equivalent`]).
pub open spec fn aexpr_equivalent(a: Aexpr, b: Aexpr) -> bool
    decreases a,
{
    match (a, b) {
        (Aexpr::Constant(x), Aexpr::Constant(y)) => x == y,
        (Aexpr::IO(x), Aexpr::IO(y)) => func_io_equivalent(x, y),
        (Aexpr::Negated(x), Aexpr::Negated(y)) => aexpr_equivalent(*x, *y),
        (Aexpr::Sum(x0, x1), Aexpr::Sum(y0, y1)) => aexpr_equivalent(*x0, *y0) && aexpr_equivalent(*x1, *y1),
        (Aexpr::Product(x0, x1), Aexpr::Product(y0, y1)) => aexpr_equivalent(*x0, *y0) && aexpr_equivalent(*x1, *y1),
        _ => false,
    }
}

impl IRAexpr {
    /// Structural equality, comparing constants by value.
    pub fn equals(&self, other: &IRAexpr) -> (r: bool)
        ensures
            r == (self@ == other@),
        decreases self,
    {
        match (self, other) {
            (IRAexpr::Constant(x), IRAexpr::Constant(y)) => x.equals(y),
            (IRAexpr::IO(x), IRAexpr::IO(y)) => *x == *y,
            (IRAexpr::Negated(x), IRAexpr::Negated(y)) => (**x).equals(&**y),
            (IRAexpr::Sum(x0, x1), IRAexpr::Sum(y0, y1)) => (**x0).equals(&**y0) && (**x1).equals(&**y1),
            (IRAexpr::Product(x0, x1), IRAexpr::Product(y0, y1)) => (**x0).equals(&**y0) && (**x1).equals(&**y1),
            _ => {
                proof {
                    assert(self@ != other@) by {
                        match (self, other) {
                            (IRAexpr::Constant(_), _) => {},
                            (IRAexpr::IO(_), _) => {},
                            (IRAexpr::Negated(_), _) => {},
                            (IRAexpr::Sum(_, _), _) => {},
                            (IRAexpr::Product(_, _), _) => {},
                        }
                    }
                }
                false
            },
        }
    }

    /// Whether two expressions are equivalent, as [`aexpr_equivalent`] says.
    pub fn equivalent(&self, other: &IRAexpr) -> (r: bool)
        ensures
            r == aexpr_equivalent(self@, other@),
        decreases self,
    {
        match (self, other) {
            (IRAexpr::Constant(x), IRAexpr::Constant(y)) => x.equals(y),
            (IRAexpr::IO(x), IRAexpr::IO(y)) => func_io_eqv(x, y),
            (IRAexpr::Negated(x), IRAexpr::Negated(y)) => (**x).equivalent(&**y),
            (IRAexpr::Sum(x0, x1), IRAexpr::Sum(y0, y1)) => (**x0).equivalent(&**y0) && (**x1).equivalent(&**y1),
            (IRAexpr::Product(x0, x1), IRAexpr::Product(y0, y1)) => (**x0).equivalent(&**y0) && (**x1).equivalent(&**y1),
            _ => {
                proof {
                    assert(!aexpr_equivalent(self@, other@)) by {
                        match (self, other) {
                            (IRAexpr::Constant(_), _) => {},
                            (IRAexpr::IO(_), _) => {},
                            (IRAexpr::Negated(_), _) => {},
                            (IRAexpr::Sum(_, _), _) => {},
                            (IRAexpr::Product(_, _), _) => {},
                        }
                    }
                }
                false
            },
        }
    }
}

impl PartialEq for IRAexpr {
    fn eq(&self, other: &IRAexpr) -> (r: bool) {
        self.equals(other)
    }
}

impl vstd::std_specs::cmp::PartialEqSpecImpl for IRAexpr {
    open spec fn obeys_eq_spec() -> bool {
        true
    }

    open spec fn eq_spec(&self, other: &IRAexpr) -> bool {
        self@ == other@
    }
}

/// The expression with each of its absolute advice cells made relative to the first region
/// that contains its row (see [`relativized`]).
pub open spec fn aexpr_relativized(e: Aexpr, regions: Seq<(usize, usize)>) -> Aexpr
    decreases e,
{
    match e {
        Aexpr::Constant(c) => Aexpr::Constant(c),
        Aexpr::IO(io) => Aexpr::IO(relativized(io, regions)),
        Aexpr::Negated(x) => Aexpr::Negated(Box::new(aexpr_relativized(*x, regions))),
        Aexpr::Sum(x, y) => Aexpr::Sum(Box::new(aexpr_relativized(*x, regions)), Box::new(aexpr_relativized(*y, regions))),
        Aexpr::Product(x, y) => Aexpr::Product(Box::new(aexpr_relativized(*x, regions)), Box::new(aexpr_relativized(*y, regions))),
    }
}

impl IRAexpr {
    /// The expression with its absolute advice cells made relative to the regions, as
    /// [`aexpr_relativized`] says.
    pub fn relativize_ios(self, regions: &Vec<(usize, usize)>) -> (r: IRAexpr)
        ensures
            r@ == aexpr_relativized(self@, regions@),
        decreases self,
    {
        match self {
            IRAexpr::Constant(c) => IRAexpr::Constant(c),
            IRAexpr::IO(io) => IRAexpr::IO(relativize_advice_cell(io, regions)),
            IRAexpr::Negated(x) => IRAexpr::Negated(Box::new((*x).relativize_ios(regions))),
            IRAexpr::Sum(x, y) => IRAexpr::Sum(Box::new((*x).relativize_ios(regions)), Box::new((*y).relativize_ios(regions))),
            IRAexpr::Product(x, y) => IRAexpr::Product(Box::new((*x).relativize_ios(regions)), Box::new((*y).relativize_ios(regions))),
        }
    }
}

/// `b` has the shape of `a`, with the same constants, and each variable of `b` is related by
/// `rel` to the variable of `a` at the same place, or, when `keep` holds, equal to it.
pub open spec fn ios_mapped(a: Aexpr, b: Aexpr, rel: spec_fn(FuncIO, FuncIO) -> bool, keep: bool) -> bool
    decreases a,
{
    match a {
        Aexpr::Constant(c) => b == Aexpr::Constant(c),
        Aexpr::IO(x) => b matches Aexpr::IO(y) && (rel(x, y) || keep && y == x),
        Aexpr::Negated(x) => b matches Aexpr::Negated(y) && ios_mapped(*x, *y, rel, keep),
        Aexpr::Sum(x1, x2) => b matches Aexpr::Sum(y1, y2) && ios_mapped(*x1, *y1, rel, keep)
            && ios_mapped(*x2, *y2, rel, keep),
        Aexpr::Product(x1, x2) => b matches Aexpr::Product(y1, y2) && ios_mapped(*x1, *y1, rel, keep)
            && ios_mapped(*x2, *y2, rel, keep),
    }
}

/// An expression kept as it is is mapped, when variables may be kept.
proof fn lemma_ios_kept(a: Aexpr, rel: spec_fn(FuncIO, FuncIO) -> bool)
    ensures
        ios_mapped(a, a, rel, true),
    decreases a,
{
    match a {
        Aexpr::Constant(_) => {},
        Aexpr::IO(_) => {},
        Aexpr::Negated(x) => lemma_ios_kept(*x, rel),
        Aexpr::Sum(x1, x2) => {
            lemma_ios_kept(*x1, rel);
            lemma_ios_kept(*x2, rel);
        },
        Aexpr::Product(x1, x2) => {
            lemma_ios_kept(*x1, rel);
            lemma_ios_kept(*x2, rel);
        },
    }
}

/// Some variable of `a` satisfies `pred`.
pub open spec fn has_io(a: Aexpr, pred: spec_fn(FuncIO) -> bool) -> bool
    decreases a,
{
    match a {
        Aexpr::Constant(_) => false,
        Aexpr::IO(x) => pred(x),
        Aexpr::Negated(x) => has_io(*x, pred),
        Aexpr::Sum(x1, x2) => has_io(*x1, pred) || has_io(*x2, pred),
        Aexpr::Product(x1, x2) => has_io(*x1, pred) || has_io(*x2, pred),
    }
}

impl IRAexpr {
    /// Rewrites each variable of the expression with what `f` computes from it, from left to
    /// right. At the first error the remaining variables are kept as they are and the error is
    /// returned.
    pub fn try_map_io<E, F: Fn(FuncIO) -> Result<FuncIO, E>>(&mut self, f: &F) -> (r: Result<(), E>)
        requires
            forall|io: FuncIO| f.requires((io,)),
        ensures
            ios_mapped(old(self)@, final(self)@, |a: FuncIO, b: FuncIO| f.ensures((a,), Ok::<FuncIO, E>(b)), true),
            r is Ok ==> ios_mapped(old(self)@, final(self)@, |a: FuncIO, b: FuncIO| f.ensures((a,), Ok::<FuncIO, E>(b)), false),
            r matches Err(e) ==> has_io(old(self)@, |a: FuncIO| f.ensures((a,), Err::<FuncIO, E>(e))),
            (forall|a: FuncIO, res: Result<FuncIO, E>| f.ensures((a,), res) ==> res is Ok) ==> r is Ok,
    {
        let mut tmp = IRAexpr::IO(FuncIO::Temp(0));
        std::mem::swap(&mut tmp, self);
        let (e, err) = tmp.try_map_io_keep(f);
        *self = e;
        match err {
            Some(e) => Err(e),
            None => Ok(()),
        }
    }

    fn try_map_io_keep<E, F: Fn(FuncIO) -> Result<FuncIO, E>>(self, f: &F) -> (r: (IRAexpr, Option<E>))
        requires
            forall|io: FuncIO| f.requires((io,)),
        ensures
            ios_mapped(self@, r.0@, |a: FuncIO, b: FuncIO| f.ensures((a,), Ok::<FuncIO, E>(b)), true),
            r.1 is None ==> ios_mapped(self@, r.0@, |a: FuncIO, b: FuncIO| f.ensures((a,), Ok::<FuncIO, E>(b)), false),
            r.1 matches Some(e) ==> has_io(self@, |a: FuncIO| f.ensures((a,), Err::<FuncIO, E>(e))),
            (forall|a: FuncIO, res: Result<FuncIO, E>| f.ensures((a,), res) ==> res is Ok) ==> r.1 is None,
        decreases self,
    {
        match self {
            IRAexpr::Constant(c) => (IRAexpr::Constant(c), None),
            IRAexpr::IO(io) => match f(io) {
                Ok(n) => (IRAexpr::IO(n), None),
                Err(e) => (IRAexpr::IO(io), Some(e)),
            },
            IRAexpr::Negated(x) => {
                let (y, e) = (*x).try_map_io_keep(f);
                (IRAexpr::Negated(Box::new(y)), e)
            },
            IRAexpr::Sum(x1, x2) => {
                let (y1, e) = (*x1).try_map_io_keep(f);
                match e {
                    Some(e) => {
                        proof {
                            lemma_ios_kept((*x2)@, |a: FuncIO, b: FuncIO| f.ensures((a,), Ok::<FuncIO, E>(b)));
                        }
                        (IRAexpr::Sum(Box::new(y1), x2), Some(e))
                    },
                    None => {
                        let (y2, e2) = (*x2).try_map_io_keep(f);
                        (IRAexpr::Sum(Box::new(y1), Box::new(y2)), e2)
                    },
                }
            },
            IRAexpr::Product(x1, x2) => {
                let (y1, e) = (*x1).try_map_io_keep(f);
                match e {
                    Some(e) => {
                        proof {
                            lemma_ios_kept((*x2)@, |a: FuncIO, b: FuncIO| f.ensures((a,), Ok::<FuncIO, E>(b)));
                        }
                        (IRAexpr::Product(Box::new(y1), x2), Some(e))
                    },
                    None => {
                        let (y2, e2) = (*x2).try_map_io_keep(f);
                        (IRAexpr::Product(Box::new(y1), Box::new(y2)), e2)
                    },
                }
            },
        }
    }
}

/// `r` has the structure of `e`, each constant of `e` replaced by one related to it by `rel`.
pub open spec fn consts_mapped(e: IRAexpr, r: IRAexpr, rel: spec_fn(Felt, Felt) -> bool) -> bool
    decreases e,
{
    match e {
        IRAexpr::Constant(a) => r matches IRAexpr::Constant(b) && rel(a, b),
        IRAexpr::IO(io) => r == IRAexpr::IO(io),
        IRAexpr::Negated(x) => r matches IRAexpr::Negated(y) && consts_mapped(*x, *y, rel),
        IRAexpr::Sum(x1, x2) => r matches IRAexpr::Sum(y1, y2) && consts_mapped(*x1, *y1, rel) && consts_mapped(*x2, *y2, rel),
        IRAexpr::Product(x1, x2) => r matches IRAexpr::Product(y1, y2) && consts_mapped(*x1, *y1, rel)
            && consts_mapped(*x2, *y2, rel),
    }
}

/// `f` may transform every constant of the expression without error.
pub open spec fn consts_ok<E, F: Fn(Felt) -> Result<Felt, E>>(e: IRAexpr, f: F) -> bool
    decreases e,
{
    match e {
        IRAexpr::Constant(a) => exists|b: Felt| f.ensures((a,), Ok::<Felt, E>(b)),
        IRAexpr::IO(_) => true,
        IRAexpr::Negated(x) => consts_ok(*x, f),
        IRAexpr::Sum(x1, x2) => consts_ok(*x1, f) && consts_ok(*x2, f),
        IRAexpr::Product(x1, x2) => consts_ok(*x1, f) && consts_ok(*x2, f),
    }
}

/// Transforming the constants of the expression from left to right, `f` may give the error
/// `err` at some constant after having transformed every constant before it.
pub open spec fn consts_fail_first<E, F: Fn(Felt) -> Result<Felt, E>>(e: IRAexpr, f: F, err: E) -> bool
    decreases e,
{
    match e {
        IRAexpr::Constant(a) => f.ensures((a,), Err::<Felt, E>(err)),
        IRAexpr::IO(_) => false,
        IRAexpr::Negated(x) => consts_fail_first(*x, f, err),
        IRAexpr::Sum(x1, x2) => consts_fail_first(*x1, f, err) || (consts_ok(*x1, f) && consts_fail_first(*x2, f, err)),
        IRAexpr::Product(x1, x2) => consts_fail_first(*x1, f, err) || (consts_ok(*x1, f) && consts_fail_first(*x2, f, err)),
    }
}

impl IRAexpr {
    /// The expression with each constant replaced by what `f` gives for it; the variables
    /// stay.
    pub fn map<F: Fn(Felt) -> Felt>(self, f: &F) -> (r: IRAexpr)
        requires
            forall|x: Felt| f.requires((x,)),
        ensures
            consts_mapped(self, r, |a: Felt, b: Felt| f.ensures((a,), b)),
        decreases self,
    {
        match self {
            IRAexpr::Constant(c) => IRAexpr::Constant(f(c)),
            IRAexpr::IO(io) => IRAexpr::IO(io),
            IRAexpr::Negated(x) => IRAexpr::Negated(Box::new((*x).map(f))),
            IRAexpr::Sum(x1, x2) => {
                let y1 = (*x1).map(f);
                let y2 = (*x2).map(f);
                IRAexpr::Sum(Box::new(y1), Box::new(y2))
            },
            IRAexpr::Product(x1, x2) => {
                let y1 = (*x1).map(f);
                let y2 = (*x2).map(f);
                IRAexpr::Product(Box::new(y1), Box::new(y2))
            },
        }
    }

    /// The expression with each constant replaced by what `f` gives for it, from left to
    /// right, stopping at the first error, which is returned.
    pub fn try_map<E, F: Fn(Felt) -> Result<Felt, E>>(self, f: &F) -> (r: Result<IRAexpr, E>)
        requires
            forall|x: Felt| f.requires((x,)),
        ensures
            r matches Ok(y) ==> consts_mapped(self, y, |a: Felt, b: Felt| f.ensures((a,), Ok::<Felt, E>(b))),
            r is Ok ==> consts_ok(self, *f),
            r matches Err(e) ==> consts_fail_first(self, *f, e),
            (forall|a: Felt, res: Result<Felt, E>| f.ensures((a,), res) ==> res is Ok) ==> r is Ok,
        decreases self,
    {
        match self {
            IRAexpr::Constant(c) => match f(c) {
                Ok(d) => Ok(IRAexpr::Constant(d)),
                Err(e) => Err(e),
            },
            IRAexpr::IO(io) => Ok(IRAexpr::IO(io)),
            IRAexpr::Negated(x) => match (*x).try_map(f) {
                Ok(y) => Ok(IRAexpr::Negated(Box::new(y))),
                Err(e) => Err(e),
            },
            IRAexpr::Sum(x1, x2) => match (*x1).try_map(f) {
                Err(e) => Err(e),
                Ok(y1) => match (*x2).try_map(f) {
                    Err(e) => Err(e),
                    Ok(y2) => Ok(IRAexpr::Sum(Box::new(y1), Box::new(y2))),
                },
            },
            IRAexpr::Product(x1, x2) => match (*x1).try_map(f) {
                Err(e) => Err(e),
                Ok(y1) => match (*x2).try_map(f) {
                    Err(e) => Err(e),
                    Ok(y2) => Ok(IRAexpr::Product(Box::new(y1), Box::new(y2))),
                },
            },
        }
    }
}

} // verus!

//! Conversion of polynomial expressions into arithmetic expressions, resolving their queries,
//! selectors and challenges.
use vstd::prelude::*;
use crate::felt::Felt;
use crate::func_io::FuncIO;
use crate::ir::aexpr::{Aexpr, IRAexpr};
use crate::poly::Expression;
use crate::resolvers::{
    Bool, ChallengeResolver, QueryResolver, ResolveError, ResolvedQuery, ResolvedSelector,
    ResolvedValue, SelectorResolver,
};

verus! {

/// The arithmetic expression of a resolved query: a literal is a constant, a variable is a
/// variable.
pub open spec fn resolved_aexpr(r: Result<ResolvedValue, ResolveError>) -> Result<Aexpr, ResolveError> {
    match r {
        Err(e) => Err(e),
        Ok(ResolvedValue::Lit(v)) => Ok(Aexpr::Constant(v)),
        Ok(ResolvedValue::IO(io)) => Ok(Aexpr::IO(io)),
    }
}

/// The model of the expression that a polynomial becomes: constants stay, selectors, queries
/// and challenges are replaced by what the resolvers give (an enabled selector is one, a
/// disabled one zero), a scaled expression is a product by a constant, and the first error met,
/// from left to right, is the result when there is one.
pub open spec fn lowered<S: SelectorResolver, Q: QueryResolver, C: ChallengeResolver>(e: Expression, sr: S, qr: Q, cr: C) -> Result<Aexpr, ResolveError>
    decreases e,
{
    match e {
        Expression::Constant(f) => Ok(Aexpr::Constant(f@)),
        Expression::Selector(s) => match sr.selector_spec(s) {
            Err(err) => Err(err),
            Ok(ResolvedSelector::Const(Bool(b))) => Ok(Aexpr::Constant(if b { 1 } else { 0 })),
            Ok(ResolvedSelector::Arg(a)) => Ok(Aexpr::IO(FuncIO::Arg(a))),
        },
        Expression::Fixed(q) => resolved_aexpr(qr.fixed_spec(q)),
        Expression::Advice(q) => resolved_aexpr(qr.advice_spec(q)),
        Expression::Instance(q) => resolved_aexpr(qr.instance_spec(q)),
        Expression::Challenge(i) => match cr.challenge_spec(i) {
            Err(err) => Err(err),
            Ok(io) => Ok(Aexpr::IO(io)),
        },
        Expression::Negated(x) => match lowered(*x, sr, qr, cr) {
            Err(err) => Err(err),
            Ok(a) => Ok(Aexpr::Negated(Box::new(a))),
        },
        Expression::Sum(x, y) => match lowered(*x, sr, qr, cr) {
            Err(err) => Err(err),
            Ok(a) => match lowered(*y, sr, qr, cr) {
                Err(err) => Err(err),
                Ok(b) => Ok(Aexpr::Sum(Box::new(a), Box::new(b))),
            },
        },
        Expression::Product(x, y) => match lowered(*x, sr, qr, cr) {
            Err(err) => Err(err),
            Ok(a) => match lowered(*y, sr, qr, cr) {
                Err(err) => Err(err),
                Ok(b) => Ok(Aexpr::Product(Box::new(a), Box::new(b))),
            },
        },
        Expression::Scaled(x, c) => match lowered(*x, sr, qr, cr) {
            Err(err) => Err(err),
            Ok(a) => Ok(Aexpr::Product(Box::new(a), Box::new(Aexpr::Constant(c@)))),
        },
    }
}

/// The model of the result of a conversion.
pub open spec fn aexpr_result_view(r: Result<IRAexpr, ResolveError>) -> Result<Aexpr, ResolveError> {
    match r {
        Ok(a) => Ok(a@),
        Err(e) => Err(e),
    }
}

/// The arithmetic expression of a resolved query.
fn from_resolved(r: Result<ResolvedQuery, ResolveError>) -> (out: Result<IRAexpr, ResolveError>)
    ensures
        aexpr_result_view(out) == resolved_aexpr(crate::resolvers::resolved_view(r)),
{
    match r {
        Err(e) => Err(e),
        Ok(ResolvedQuery::Lit(f)) => Ok(IRAexpr::Constant(f)),
        Ok(ResolvedQuery::IO(io)) => Ok(IRAexpr::IO(io)),
    }
}

impl IRAexpr {
    /// Converts the polynomial expression, resolving its parts with the resolvers, as
    /// [`lowered`] says.
    pub fn new<S: SelectorResolver, Q: QueryResolver, C: ChallengeResolver>(expr: &Expression, sr: &S, qr: &Q, cr: &C) -> (r: Result<IRAexpr, ResolveError>)
        ensures
            aexpr_result_view(r) == lowered(*expr, *sr, *qr, *cr),
        decreases expr,
    {
        match expr {
            Expression::Constant(f) => Ok(IRAexpr::Constant(f.duplicate())),
            Expression::Selector(s) => match sr.resolve_selector(s) {
                Err(err) => Err(err),
                Ok(ResolvedSelector::Const(b)) => Ok(IRAexpr::Constant(b.to_f())),
                Ok(ResolvedSelector::Arg(a)) => Ok(IRAexpr::IO(FuncIO::Arg(a))),
            },
            Expression::Fixed(q) => from_resolved(qr.resolve_fixed_query(q)),
            Expression::Advice(q) => from_resolved(qr.resolve_advice_query(q)),
            Expression::Instance(q) => from_resolved(qr.resolve_instance_query(q)),
            Expression::Challenge(i) => match cr.resolve_challenge(*i) {
                Err(err) => Err(err),
                Ok(io) => Ok(IRAexpr::IO(io)),
            },
            Expression::Negated(x) => match IRAexpr::new(&**x, sr, qr, cr) {
                Err(err) => Err(err),
                Ok(a) => Ok(IRAexpr::Negated(Box::new(a))),
            },
            Expression::Sum(x, y) => match IRAexpr::new(&**x, sr, qr, cr) {
                Err(err) => Err(err),
                Ok(a) => match IRAexpr::new(&**y, sr, qr, cr) {
                    Err(err) => Err(err),
                    Ok(b) => Ok(IRAexpr::Sum(Box::new(a), Box::new(b))),
                },
            },
            Expression::Product(x, y) => match IRAexpr::new(&**x, sr, qr, cr) {
                Err(err) => Err(err),
                Ok(a) => match IRAexpr::new(&**y, sr, qr, cr) {
                    Err(err) => Err(err),
                    Ok(b) => Ok(IRAexpr::Product(Box::new(a), Box::new(b))),
                },
            },
            Expression::Scaled(x, c) => match IRAexpr::new(&**x, sr, qr, cr) {
                Err(err) => Err(err),
                Ok(a) => {
                    let k = IRAexpr::Constant(c.duplicate());
                    assert(k@ == Aexpr::Constant(c@));
                    Ok(IRAexpr::Product(Box::new(a), Box::new(k)))
                },
            },
        }
    }
}

} // verus!

//! Expressions together with the row, and maybe the region, where their queries resolve.
use vstd::prelude::*;
use crate::func_io::FuncIO;
use crate::ir::aexpr::IRAexpr;
use crate::ir::lowering::{aexpr_result_view, lowered};
use crate::poly::{Expression, Query, Selector};
use crate::resolvers::{
    ChallengeResolver, FixedQueryResolver, QueryResolver, ResolveError, ResolvedQuery,
    ResolvedSelector, ResolvedValue, SelectorResolver,
};
use crate::synthesis::regions::region_row::RegionRow;
use crate::synthesis::regions::row::Row;

verus! {

/// Where the queries of an expression resolve: a row of a region, or a row of the circuit.
#[derive(Copy, Clone)]
pub enum Scope<'r, 'io, 'fq, R> {
    /// A row of a region.
    InRegion(RegionRow<'r, 'io, 'fq, R>),
    /// A row outside of any region.
    AtRow(Row<'io, 'fq, R>),
}

/// An expression with the place where its queries resolve.
pub struct ScopedExpression<'r, 'io, 'fq, R> {
    /// The expression.
    pub expr: Expression,
    /// Where its queries resolve.
    pub scope: Scope<'r, 'io, 'fq, R>,
}

impl<'r, 'io, 'fq, R: FixedQueryResolver> QueryResolver for Scope<'r, 'io, 'fq, R> {
    open spec fn fixed_spec(&self, q: Query) -> Result<ResolvedValue, ResolveError> {
        match self {
            Scope::InRegion(rr) => rr.fixed_spec(q),
            Scope::AtRow(row) => row.fixed_spec(q),
        }
    }

    open spec fn advice_spec(&self, q: Query) -> Result<ResolvedValue, ResolveError> {
        match self {
            Scope::InRegion(rr) => rr.advice_spec(q),
            Scope::AtRow(row) => row.advice_spec(q),
        }
    }

    open spec fn instance_spec(&self, q: Query) -> Result<ResolvedValue, ResolveError> {
        match self {
            Scope::InRegion(rr) => rr.instance_spec(q),
            Scope::AtRow(row) => row.instance_spec(q),
        }
    }

    fn resolve_fixed_query(&self, q: &Query) -> (r: Result<ResolvedQuery, ResolveError>) {
        match self {
            Scope::InRegion(rr) => rr.resolve_fixed_query(q),
            Scope::AtRow(row) => row.resolve_fixed_query(q),
        }
    }

    fn resolve_advice_query(&self, q: &Query) -> (r: Result<ResolvedQuery, ResolveError>) {
        match self {
            Scope::InRegion(rr) => rr.resolve_advice_query(q),
            Scope::AtRow(row) => row.resolve_advice_query(q),
        }
    }

    fn resolve_instance_query(&self, q: &Query) -> (r: Result<ResolvedQuery, ResolveError>) {
        match self {
            Scope::InRegion(rr) => rr.resolve_instance_query(q),
            Scope::AtRow(row) => row.resolve_instance_query(q),
        }
    }
}

impl<'r, 'io, 'fq, R: FixedQueryResolver> SelectorResolver for Scope<'r, 'io, 'fq, R> {
    open spec fn selector_spec(&self, s: Selector) -> Result<ResolvedSelector, ResolveError> {
        match self {
            Scope::InRegion(rr) => rr.selector_spec(s),
            Scope::AtRow(row) => row.selector_spec(s),
        }
    }

    fn resolve_selector(&self, s: &Selector) -> (r: Result<ResolvedSelector, ResolveError>) {
        match self {
            Scope::InRegion(rr) => rr.resolve_selector(s),
            Scope::AtRow(row) => row.resolve_selector(s),
        }
    }
}

impl<'r, 'io, 'fq, R: FixedQueryResolver> ChallengeResolver for Scope<'r, 'io, 'fq, R> {
    open spec fn challenge_spec(&self, index: usize) -> Result<FuncIO, ResolveError> {
        match self {
            Scope::InRegion(rr) => rr.challenge_spec(index),
            Scope::AtRow(row) => row.challenge_spec(index),
        }
    }

    fn resolve_challenge(&self, index: usize) -> (r: Result<FuncIO, ResolveError>) {
        match self {
            Scope::InRegion(rr) => rr.resolve_challenge(index),
            Scope::AtRow(row) => row.resolve_challenge(index),
        }
    }
}

impl<'r, 'io, 'fq, R: FixedQueryResolver> ScopedExpression<'r, 'io, 'fq, R> {
    /// The expression with the place where its queries resolve.
    pub fn new(expr: Expression, scope: Scope<'r, 'io, 'fq, R>) -> (r: Self)
        ensures
            r.expr == expr,
            r.scope == scope,
    {
        ScopedExpression { expr, scope }
    }

    /// The arithmetic expression, its queries, selectors and challenges resolved in its scope
    /// (see [`lowered`]).
    pub fn to_aexpr(&self) -> (r: Result<IRAexpr, ResolveError>)
        ensures
            aexpr_result_view(r) == lowered(self.expr, self.scope, self.scope, self.scope),
    {
        IRAexpr::new(&self.expr, &self.scope, &self.scope, &self.scope)
    }
}

} // verus!

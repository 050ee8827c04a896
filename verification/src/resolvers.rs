//! Kinds of cell queries, and what resolving a query or a selector gives.
use vstd::prelude::*;
use crate::felt::Felt;
use crate::func_io::FuncIO;
use crate::poly::{Query, Selector};

verus! {

/// Marker for fixed cell queries.
#[derive(Debug, Clone, Copy, PartialEq, Eq, Structural, Hash)]
pub struct Fixed;

/// Marker for advice cell queries.
#[derive(Debug, Clone, Copy, PartialEq, Eq, Structural, Hash)]
pub struct Advice;

/// Marker for instance cell queries.
#[derive(Debug, Clone, Copy, PartialEq, Eq, Structural, Hash)]
pub struct Instance;

/// Implemented by the three kinds of queries of this module alone, so that no other type
/// becomes a [`QueryKind`].
pub trait QK {
}

impl QK for Fixed {
}

impl QK for Advice {
}

impl QK for Instance {
}

/// The kinds of queries: fixed, advice and instance.
pub trait QueryKind: QK {
}

impl QueryKind for Fixed {
}

impl QueryKind for Advice {
}

impl QueryKind for Instance {
}

/// Represents the value of selector.
#[derive(Debug, Clone, Copy, PartialEq, Eq, Structural)]
pub struct Bool(pub bool);

impl Bool {
    /// The field element of the value: one for `true`, zero for `false`.
    pub fn to_f(&self) -> (r: Felt)
        ensures
            r@ == (if self.0 { 1nat } else { 0nat }),
    {
        if self.0 {
            Felt::from_u64(1)
        } else {
            Felt::zero()
        }
    }
}

/// Possible values when resolving a selector.
#[derive(Debug, Clone, Copy, PartialEq, Eq, Structural)]
pub enum ResolvedSelector {
    /// When the selector is used as argument.
    Const(Bool),
    /// When the selector is used as formal: the number of the argument.
    Arg(usize),
}

/// Possible results of resolving a query.
#[derive(Debug)]
pub enum ResolvedQuery {
    /// Literal field value.
    Lit(Felt),
    /// An input or output of a function.
    IO(FuncIO),
}

impl ResolvedSelector {
    /// The selector resolved to a constant.
    pub fn from_bool(b: bool) -> (r: ResolvedSelector)
        ensures
            r == ResolvedSelector::Const(Bool(b)),
    {
        ResolvedSelector::Const(Bool(b))
    }

    /// The selector resolved to an argument.
    pub fn from_arg(arg: usize) -> (r: ResolvedSelector)
        ensures
            r == ResolvedSelector::Arg(arg),
    {
        ResolvedSelector::Arg(arg)
    }
}

/// Model of a resolved query: a literal is its value.
pub enum ResolvedValue {
    /// Literal field value.
    Lit(nat),
    /// An input or output of a function.
    IO(FuncIO),
}

impl View for ResolvedQuery {
    type V = ResolvedValue;

    open spec fn view(&self) -> ResolvedValue {
        match self {
            ResolvedQuery::Lit(f) => ResolvedValue::Lit(f@),
            ResolvedQuery::IO(io) => ResolvedValue::IO(*io),
        }
    }
}

/// Model of the result of resolving a query.
pub open spec fn resolved_view(r: Result<ResolvedQuery, ResolveError>) -> Result<ResolvedValue, ResolveError> {
    match r {
        Ok(q) => Ok(q@),
        Err(e) => Err(e),
    }
}

/// Model of the result of resolving a fixed cell: a value is its number.
pub open spec fn felt_view(r: Result<Felt, ResolveError>) -> Result<nat, ResolveError> {
    match r {
        Ok(f) => Ok(f@),
        Err(e) => Err(e),
    }
}

impl ResolvedQuery {
    /// The query resolved to a variable.
    pub fn from_io(io: FuncIO) -> (r: ResolvedQuery)
        ensures
            r == ResolvedQuery::IO(io),
    {
        ResolvedQuery::IO(io)
    }
}

/// Why a query, a selector or a challenge could not be resolved.
#[derive(Debug, Clone, Copy, PartialEq, Eq, Structural)]
pub enum ResolveError {
    /// The rotation takes the row before the first row of the circuit.
    RowUnderflow,
    /// The row, or the rotated row, does not fit in a signed machine integer.
    RowOverflow,
    /// The queried cell is both an input and an output of the main function.
    InputAndOutput,
    /// The fixed cell was assigned an unknown value.
    UnknownFixedValue,
    /// The region has no rows, hence no first row.
    RegionWithoutStart,
    /// A selector was queried where no region gives its value.
    SelectorOutsideRegion,
}

/// Resolver that only supports fixed cell queries: the value assigned to a fixed cell during
/// synthesis.
pub trait FixedQueryResolver {
    /// The value assigned to the cell of the column at the row.
    spec fn fixed_value(&self, column: usize, row: usize) -> Result<nat, ResolveError>;

    /// Resolves the fixed query at the row and returns its assigned value.
    fn resolve_query(&self, query: &Query, row: usize) -> (r: Result<Felt, ResolveError>)
        ensures
            felt_view(r) == self.fixed_value(query.column_index, row);
}

/// Resolver that converts a query to a cell into a constant value or a variable.
pub trait QueryResolver {
    /// What a fixed query resolves to.
    spec fn fixed_spec(&self, query: Query) -> Result<ResolvedValue, ResolveError>;

    /// What an advice query resolves to.
    spec fn advice_spec(&self, query: Query) -> Result<ResolvedValue, ResolveError>;

    /// What an instance query resolves to.
    spec fn instance_spec(&self, query: Query) -> Result<ResolvedValue, ResolveError>;

    /// Resolves a fixed query.
    fn resolve_fixed_query(&self, query: &Query) -> (r: Result<ResolvedQuery, ResolveError>)
        ensures
            resolved_view(r) == self.fixed_spec(*query);

    /// Resolves an advice query.
    fn resolve_advice_query(&self, query: &Query) -> (r: Result<ResolvedQuery, ResolveError>)
        ensures
            resolved_view(r) == self.advice_spec(*query);

    /// Resolves an instance query.
    fn resolve_instance_query(&self, query: &Query) -> (r: Result<ResolvedQuery, ResolveError>)
        ensures
            resolved_view(r) == self.instance_spec(*query);
}

/// Resolver that returns the value or the variable that is representing the selector.
pub trait SelectorResolver {
    /// What the selector resolves to.
    spec fn selector_spec(&self, selector: Selector) -> Result<ResolvedSelector, ResolveError>;

    /// Resolves the selector and returns its value.
    fn resolve_selector(&self, selector: &Selector) -> (r: Result<ResolvedSelector, ResolveError>)
        ensures
            r == self.selector_spec(*selector);
}

/// Resolver that gives the variable that stands for a challenge.
pub trait ChallengeResolver {
    /// What the challenge of the given index resolves to.
    spec fn challenge_spec(&self, index: usize) -> Result<FuncIO, ResolveError>;

    /// Resolves the challenge of the given index.
    fn resolve_challenge(&self, index: usize) -> (r: Result<FuncIO, ResolveError>)
        ensures
            r == self.challenge_spec(index);
}

/// Gives the resolvers that lowering an expression needs: one for queries and one for
/// selectors.
pub trait ResolversProvider {
    /// The resolver of queries.
    type Queries: QueryResolver;

    /// The resolver of selectors.
    type Selectors: SelectorResolver;

    /// The resolver of queries that the provider holds.
    spec fn queries(&self) -> Self::Queries;

    /// The resolver of selectors that the provider holds.
    spec fn selectors(&self) -> Self::Selectors;

    /// The resolver of queries.
    fn query_resolver(&self) -> (r: &Self::Queries)
        ensures
            *r == self.queries();

    /// The resolver of selectors.
    fn selector_resolver(&self) -> (r: &Self::Selectors)
        ensures
            *r == self.selectors();
}

/// A pair of a query resolver and a selector resolver provides both.
impl<Q: QueryResolver, S: SelectorResolver> ResolversProvider for (Q, S) {
    type Queries = Q;

    type Selectors = S;

    open spec fn queries(&self) -> Q {
        self.0
    }

    open spec fn selectors(&self) -> S {
        self.1
    }

    fn query_resolver(&self) -> (r: &Q) {
        &self.0
    }

    fn selector_resolver(&self) -> (r: &S) {
        &self.1
    }
}

} // verus!

//! Structs for handling lookups.
use vstd::prelude::*;
use crate::poly::{Expression, Query};

pub mod callbacks;
pub mod table;

verus! {

/// Why a query of a lookup could not be answered.
#[derive(Debug, Clone, Copy, PartialEq, Eq, Structural)]
pub enum LookupError {
    /// An expression of the table is not a query to a fixed cell.
    NotAFixedQuery,
    /// No expression of the table queries the column.
    ColumnNotFound(usize),
    /// The behaviour of the lookups was not specified.
    Unspecified,
}

/// Defines a lookup as a list of pairs of expressions: the inputs, and the expressions of the
/// table they are looked up in.
#[derive(Debug)]
pub struct Lookup<E> {
    name: String,
    idx: usize,
    inputs: Vec<E>,
    table: Vec<E>,
}

/// Lightweight representation of a lookup that is cheap to copy.
#[derive(Debug, Copy, Clone)]
pub struct LookupData<'syn, E> {
    /// Name of the lookup.
    pub name: &'syn str,
    /// Expressions representing the arguments of the lookup.
    pub arguments: &'syn [E],
    /// Expressions representing the columns of the table.
    pub table: &'syn [E],
}

/// Whether each element of the second list is a clone of the element of the first at the
/// same place.
pub open spec fn cloned_list<E: Clone>(src: Seq<E>, dst: Seq<E>) -> bool {
    dst.len() == src.len() && forall|i: int| 0 <= i < src.len() ==> cloned(#[trigger] src[i], dst[i])
}

/// Clones each element of the list.
fn clone_list<E: Clone>(src: &[E]) -> (r: Vec<E>)
    ensures
        cloned_list(src@, r@),
{
    let mut out: Vec<E> = Vec::new();
    let mut i: usize = 0;
    while i < src.len()
        invariant
            i <= src@.len(),
            out@.len() == i,
            forall|j: int| 0 <= j < i ==> cloned(#[trigger] src@[j], out@[j]),
        decreases src@.len() - i,
    {
        out.push(src[i].clone());
        i = i + 1;
    }
    out
}

/// The fixed queries of the table expressions, or an error if one is not a fixed query.
pub open spec fn table_cells(table: Seq<Expression>) -> Result<Seq<Query>, LookupError> {
    if forall|i: int| 0 <= i < table.len() ==> #[trigger] table[i] is Fixed {
        Ok(Seq::new(table.len(), |i: int| table[i]->Fixed_0))
    } else {
        Err(LookupError::NotAFixedQuery)
    }
}

/// The position of the first query to the column.
pub open spec fn first_query_to(queries: Seq<Query>, col: usize) -> Option<int>
    decreases queries.len(),
{
    if queries.len() == 0 {
        None
    } else {
        match first_query_to(queries.drop_last(), col) {
            Some(i) => Some(i),
            None => if queries.last().column_index == col {
                Some(queries.len() - 1)
            } else {
                None
            },
        }
    }
}

impl<E> Lookup<E> {
    /// Name given to the lookup.
    pub closed spec fn spec_name(&self) -> Seq<char> {
        self.name@
    }

    /// The index of the lookup among the lookups of the circuit.
    pub closed spec fn spec_idx(&self) -> usize {
        self.idx
    }

    /// The inputs of the queries.
    pub closed spec fn spec_inputs(&self) -> Seq<E> {
        self.inputs@
    }

    /// The expressions of the table.
    pub closed spec fn spec_table(&self) -> Seq<E> {
        self.table@
    }

    /// The lookup of the given index, name, inputs and table.
    fn new(idx: usize, name: &str, inputs: &[E], table: &[E]) -> (r: Self) where E: Clone
        ensures
            r.spec_idx() == idx,
            r.spec_name() == name@,
            cloned_list(inputs@, r.spec_inputs()),
            cloned_list(table@, r.spec_table()),
    {
        Lookup { idx, name: name.to_string(), inputs: clone_list(inputs), table: clone_list(table) }
    }

    /// Returns the list of lookups defined in the constraint system, each with its position as
    /// its index.
    pub fn load(lookups: &[LookupData<E>]) -> (r: Vec<Self>) where E: Clone
        ensures
            r@.len() == lookups@.len(),
            forall|i: int| 0 <= i < r@.len() ==> {
                &&& #[trigger] r@[i].spec_idx() == i
                &&& r@[i].spec_name() == lookups@[i].name@
                &&& cloned_list(lookups@[i].arguments@, r@[i].spec_inputs())
                &&& cloned_list(lookups@[i].table@, r@[i].spec_table())
            },
    {
        let mut out: Vec<Self> = Vec::new();
        let mut i: usize = 0;
        while i < lookups.len()
            invariant
                i <= lookups@.len(),
                out@.len() == i,
                forall|j: int| 0 <= j < i ==> {
                    &&& #[trigger] out@[j].spec_idx() == j
                    &&& out@[j].spec_name() == lookups@[j].name@
                    &&& cloned_list(lookups@[j].arguments@, out@[j].spec_inputs())
                    &&& cloned_list(lookups@[j].table@, out@[j].spec_table())
                },
            decreases lookups@.len() - i,
        {
            let a = &lookups[i];
            out.push(Self::new(i, a.name, a.arguments, a.table));
            i = i + 1;
        }
        out
    }

    /// Name given to the lookup.
    pub fn name(&self) -> (r: &str)
        ensures
            r@ == self.spec_name(),
    {
        self.name.as_str()
    }

    /// Returns the index of the lookup.
    pub fn idx(&self) -> (r: usize)
        ensures
            r == self.spec_idx(),
    {
        self.idx
    }

    /// Returns the pairs of an input and the expression of the table it is looked up in, up
    /// to the shorter of the two lists.
    pub fn expressions(&self) -> (r: Vec<(&E, &E)>)
        ensures
            r@.len() == if self.spec_inputs().len() < self.spec_table().len() {
                self.spec_inputs().len()
            } else {
                self.spec_table().len()
            },
            forall|i: int| 0 <= i < r@.len() ==> *(#[trigger] r@[i]).0 == self.spec_inputs()[i] && *r@[i].1
                == self.spec_table()[i],
    {
        let mut out: Vec<(&E, &E)> = Vec::new();
        let mut i: usize = 0;
        while i < self.inputs.len() && i < self.table.len()
            invariant
                i <= self.inputs@.len(),
                i <= self.table@.len(),
                out@.len() == i,
                forall|j: int| 0 <= j < i ==> *(#[trigger] out@[j]).0 == self.inputs@[j] && *out@[j].1 == self.table@[j],
            decreases self.inputs@.len() - i,
        {
            out.push((&self.inputs[i], &self.table[i]));
            i = i + 1;
        }
        out
    }

    /// Returns the inputs of the queries.
    pub fn inputs(&self) -> (r: &[E])
        ensures
            r@ == self.spec_inputs(),
    {
        self.inputs.as_slice()
    }
}

/// The fixed queries of the table expressions, as [`table_cells`] says.
fn compute_table_cells(table: &Vec<Expression>) -> (r: Result<Vec<Query>, LookupError>)
    ensures
        match r {
            Ok(v) => table_cells(table@) == Ok::<Seq<Query>, LookupError>(v@),
            Err(e) => table_cells(table@) == Err::<Seq<Query>, LookupError>(e),
        },
{
    let mut out: Vec<Query> = Vec::new();
    let mut i: usize = 0;
    while i < table.len()
        invariant
            i <= table@.len(),
            out@.len() == i,
            forall|j: int| 0 <= j < i ==> #[trigger] table@[j] is Fixed && out@[j] == table@[j]->Fixed_0,
        decreases table@.len() - i,
    {
        match &table[i] {
            Expression::Fixed(q) => out.push(*q),
            _ => {
                return Err(LookupError::NotAFixedQuery);
            },
        }
        i = i + 1;
    }
    proof {
        assert(out@ =~= Seq::new(table@.len(), |i: int| table@[i]->Fixed_0));
    }
    Ok(out)
}

impl Lookup<Expression> {
    /// Returns the queries to the lookup table: an error if an expression of the table is not
    /// a query to a fixed cell.
    pub fn table_queries(&self) -> (r: Result<Vec<Query>, LookupError>)
        ensures
            match r {
                Ok(v) => table_cells(self.spec_table()) == Ok::<Seq<Query>, LookupError>(v@),
                Err(e) => table_cells(self.spec_table()) == Err::<Seq<Query>, LookupError>(e),
            },
    {
        compute_table_cells(&self.table)
    }

    /// Returns the input looked up in the n-th column of the table: the input at the place of
    /// the first query of the table to the column. An error if the table does not query the
    /// column or has an expression that is not a fixed query. There must be an input at that
    /// place.
    pub fn expr_for_column(&self, col: usize) -> (r: Result<&Expression, LookupError>)
        requires
            table_cells(self.spec_table()) matches Ok(qs) ==> (first_query_to(qs, col) matches Some(i)
                ==> i < self.spec_inputs().len()),
        ensures
            match table_cells(self.spec_table()) {
                Err(e) => r == Err::<&Expression, LookupError>(e),
                Ok(qs) => match first_query_to(qs, col) {
                    None => r == Err::<&Expression, LookupError>(LookupError::ColumnNotFound(col)),
                    Some(i) => r matches Ok(e) && *e == self.spec_inputs()[i],
                },
            },
    {
        let queries = match self.table_queries() {
            Ok(qs) => qs,
            Err(e) => return Err(e),
        };
        let mut i: usize = 0;
        while i < queries.len()
            invariant
                i <= queries@.len(),
                table_cells(self.spec_table()) == Ok::<Seq<Query>, LookupError>(queries@),
                first_query_to(queries@, col) matches Some(k) ==> k < self.inputs@.len(),
                first_query_to(queries@.take(i as int), col) is None,
            decreases queries@.len() - i,
        {
            proof {
                assert(queries@.take(i + 1).drop_last() =~= queries@.take(i as int));
            }
            if queries[i].column_index == col {
                proof {
                    lemma_first_query_prefix(queries@, i + 1, col);
                }
                return Ok(&self.inputs[i]);
            }
            i = i + 1;
        }
        proof {
            assert(queries@.take(i as int) =~= queries@);
        }
        Err(LookupError::ColumnNotFound(col))
    }
}

/// A query found in a prefix is the first one of the whole list.
proof fn lemma_first_query_prefix(queries: Seq<Query>, n: int, col: usize)
    requires
        0 <= n <= queries.len(),
        first_query_to(queries.take(n), col) is Some,
    ensures
        first_query_to(queries, col) == first_query_to(queries.take(n), col),
    decreases queries.len() - n,
{
    if n < queries.len() {
        assert(queries.take(n + 1).drop_last() =~= queries.take(n));
        lemma_first_query_prefix(queries, n + 1, col);
    } else {
        assert(queries.take(n) =~= queries);
    }
}

} // verus!

//! Types related to the tables read by lookups.
use vstd::prelude::*;
use crate::poly::{Expression, Query};
use super::LookupError;

verus! {

/// Implementations of this trait compute the complete table for a lookup.
pub trait LookupTableGenerator<F> {
    /// Returns the lookup table.
    fn table(&self) -> Result<&[LookupTableRow<F>], LookupError>;
}

/// Represents a row in the lookup table that can be indexed by the columns participating in
/// the lookup.
#[derive(Debug)]
pub struct LookupTableRow<F> {
    /// The n-th value of the row is the one of the n-th column.
    columns: Vec<usize>,
    table: Vec<F>,
}

/// The position of the first occurrence of the column.
pub open spec fn column_position(columns: Seq<usize>, col: usize) -> Option<int>
    decreases columns.len(),
{
    if columns.len() == 0 {
        None
    } else {
        match column_position(columns.drop_last(), col) {
            Some(i) => Some(i),
            None => if columns.last() == col {
                Some(columns.len() - 1)
            } else {
                None
            },
        }
    }
}

impl<F> LookupTableRow<F> {
    /// The columns of the row, in order.
    pub closed spec fn spec_columns(&self) -> Seq<usize> {
        self.columns@
    }

    /// The values of the row, in the order of the columns.
    pub closed spec fn spec_values(&self) -> Seq<F> {
        self.table@
    }

    /// The row with the given values of the columns.
    pub fn new(columns: &[usize], table: Vec<F>) -> (r: Self)
        ensures
            r.spec_columns() == columns@,
            r.spec_values() == table@,
    {
        let mut cols: Vec<usize> = Vec::new();
        let mut i: usize = 0;
        while i < columns.len()
            invariant
                i <= columns@.len(),
                cols@ == columns@.take(i as int),
            decreases columns@.len() - i,
        {
            cols.push(columns[i]);
            i = i + 1;
            proof {
                assert(cols@ =~= columns@.take(i as int));
            }
        }
        proof {
            assert(columns@.take(i as int) =~= columns@);
        }
        LookupTableRow { columns: cols, table }
    }

    /// The position of the column among the columns of the row, as [`column_position`] says.
    fn col_to_index(&self, col: usize) -> (r: Option<usize>)
        ensures
            match r {
                Some(i) => column_position(self.spec_columns(), col) == Some(i as int),
                None => column_position(self.spec_columns(), col) is None,
            },
    {
        let mut i: usize = 0;
        while i < self.columns.len()
            invariant
                i <= self.columns@.len(),
                column_position(self.columns@.take(i as int), col) is None,
            decreases self.columns@.len() - i,
        {
            proof {
                assert(self.columns@.take(i + 1).drop_last() =~= self.columns@.take(i as int));
            }
            if self.columns[i] == col {
                proof {
                    lemma_column_position_prefix(self.columns@, i + 1, col);
                }
                return Some(i);
            }
            i = i + 1;
        }
        proof {
            assert(self.columns@.take(i as int) =~= self.columns@);
        }
        None
    }

    /// The value of the column. The row must have the column, with a value.
    pub fn index(&self, col: usize) -> (r: &F)
        requires
            column_position(self.spec_columns(), col) matches Some(i) && i < self.spec_values().len(),
        ensures
            *r == self.spec_values()[column_position(self.spec_columns(), col)->0],
    {
        match self.col_to_index(col) {
            Some(i) => &self.table[i],
            None => {
                proof {
                    assert(false);
                }
                &self.table[0]
            },
        }
    }

    /// The value of the queried fixed column. The row must have the column, with a value.
    pub fn index_query(&self, query: &Query) -> (r: &F)
        requires
            column_position(self.spec_columns(), query.column_index) matches Some(i) && i < self.spec_values().len(),
        ensures
            *r == self.spec_values()[column_position(self.spec_columns(), query.column_index)->0],
    {
        self.index(query.column_index)
    }

    /// The value of the column of a fixed query expression. The expression must be a fixed
    /// query of a column that the row has, with a value.
    pub fn index_expr(&self, e: &Expression) -> (r: &F)
        requires
            e matches Expression::Fixed(q) && (column_position(self.spec_columns(), q.column_index) matches Some(i)
                && i < self.spec_values().len()),
        ensures
            *r == self.spec_values()[column_position(self.spec_columns(), e->Fixed_0.column_index)->0],
    {
        match e {
            Expression::Fixed(q) => self.index_query(q),
            _ => {
                proof {
                    assert(false);
                }
                self.index(0)
            },
        }
    }
}

/// A column found in a prefix is at the same position in the whole list.
proof fn lemma_column_position_prefix(columns: Seq<usize>, n: int, col: usize)
    requires
        0 <= n <= columns.len(),
        column_position(columns.take(n), col) is Some,
    ensures
        column_position(columns, col) == column_position(columns.take(n), col),
    decreases columns.len() - n,
{
    if n < columns.len() {
        assert(columns.take(n + 1).drop_last() =~= columns.take(n));
        lemma_column_position_prefix(columns, n + 1, col);
    } else {
        assert(columns.take(n) =~= columns);
    }
}

} // verus!

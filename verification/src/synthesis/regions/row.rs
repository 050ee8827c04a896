//! Resolution of queries at a row of the circuit.
use vstd::prelude::*;
use crate::func_io::FuncIO;
use crate::io::{AdviceIO, CircuitIO, InstanceIO};
use crate::poly::{Query, Rotation, Selector};
use crate::resolvers::{
    ChallengeResolver, FixedQueryResolver, QueryResolver, ResolveError, ResolvedQuery,
    ResolvedSelector, ResolvedValue, SelectorResolver,
};
use crate::table::{Column, ColumnType};

verus! {

/// The row reached from `row` by the rotation: an error when it is before the first row, or
/// when the row or the result does not fit in a signed machine integer.
pub open spec fn rotated(row: usize, rot: Rotation) -> Result<usize, ResolveError> {
    if row > isize::MAX {
        Err(ResolveError::RowOverflow)
    } else if row + rot.0 < 0 {
        Err(ResolveError::RowUnderflow)
    } else if row + rot.0 > isize::MAX {
        Err(ResolveError::RowOverflow)
    } else {
        Ok((row + rot.0) as usize)
    }
}

/// The position of the first cell of the list that is at the column and row.
pub open spec fn find_cell<C: ColumnType>(io: Seq<(Column<C>, usize)>, col: usize, row: usize) -> Option<usize>
    decreases io.len(),
{
    if io.len() == 0 {
        None
    } else {
        match find_cell(io.drop_last(), col, row) {
            Some(i) => Some(i),
            None => if io.last().0.index == col && io.last().1 == row {
                Some((io.len() - 1) as usize)
            } else {
                None
            },
        }
    }
}

/// The variable for the cell of the column at the row, if it is an input or an output: the
/// n-th argument for the n-th input, the n-th field for the n-th output, and an error for a
/// cell that is both.
pub open spec fn io_position<C: ColumnType>(io: CircuitIO<C>, col: usize, row: usize) -> Result<Option<FuncIO>, ResolveError> {
    match (find_cell(io.spec_inputs(), col, row), find_cell(io.spec_outputs(), col, row)) {
        (None, None) => Ok(None),
        (Some(i), None) => Ok(Some(FuncIO::Arg(i))),
        (None, Some(i)) => Ok(Some(FuncIO::Field(i))),
        (Some(_), Some(_)) => Err(ResolveError::InputAndOutput),
    }
}

/// The variable for the cell of the column at the row, as [`io_position`] says, with
/// `fallback` for a cell that is neither an input nor an output.
pub open spec fn io_variable<C: ColumnType>(io: CircuitIO<C>, col: usize, row: usize, fallback: FuncIO) -> Result<FuncIO, ResolveError> {
    match io_position(io, col, row) {
        Err(e) => Err(e),
        Ok(None) => Ok(fallback),
        Ok(Some(v)) => Ok(v),
    }
}

/// Advice inputs and outputs come after the instance ones: the arguments and fields of a
/// variable are shifted by the number of instance inputs and outputs; other variables stay.
pub open spec fn stepped(io: FuncIO, instance_inputs: nat, instance_outputs: nat) -> Result<FuncIO, ResolveError> {
    match io {
        FuncIO::Arg(n) => if n + instance_inputs <= usize::MAX {
            Ok(FuncIO::Arg((n + instance_inputs) as usize))
        } else {
            Err(ResolveError::RowOverflow)
        },
        FuncIO::Field(n) => if n + instance_outputs <= usize::MAX {
            Ok(FuncIO::Field((n + instance_outputs) as usize))
        } else {
            Err(ResolveError::RowOverflow)
        },
        other => Ok(other),
    }
}

/// What a fixed query resolves to at the row: the value the resolver gives at the rotated row.
pub open spec fn fixed_at<R: FixedQueryResolver>(fqr: R, row: usize, q: Query) -> Result<ResolvedValue, ResolveError> {
    match rotated(row, q.rotation) {
        Err(e) => Err(e),
        Ok(r) => match fqr.fixed_value(q.column_index, r) {
            Ok(f) => Ok(ResolvedValue::Lit(f)),
            Err(e) => Err(e),
        },
    }
}

/// A row of the circuit, outside of any region, with the inputs and outputs of the circuit.
#[derive(Copy, Clone)]
pub struct Row<'io, 'fq, R> {
    row: usize,
    advice_io: &'io AdviceIO,
    instance_io: &'io InstanceIO,
    fqr: &'fq R,
}

impl<'io, 'fq, R: FixedQueryResolver> Row<'io, 'fq, R> {
    /// The row number.
    pub closed spec fn spec_row(&self) -> usize {
        self.row
    }

    /// The advice inputs and outputs of the circuit.
    pub closed spec fn spec_advice_io(&self) -> AdviceIO {
        *self.advice_io
    }

    /// The instance inputs and outputs of the circuit.
    pub closed spec fn spec_instance_io(&self) -> InstanceIO {
        *self.instance_io
    }

    /// The resolver of fixed cells.
    pub closed spec fn spec_fqr(&self) -> R {
        *self.fqr
    }

    /// The row with the given inputs and outputs and resolver of fixed cells.
    pub fn new(row: usize, advice_io: &'io AdviceIO, instance_io: &'io InstanceIO, fqr: &'fq R) -> (r: Self)
        ensures
            r.spec_row() == row,
            r.spec_advice_io() == *advice_io,
            r.spec_instance_io() == *instance_io,
            r.spec_fqr() == *fqr,
    {
        Row { row, advice_io, instance_io, fqr }
    }

    /// The row number.
    pub fn row(&self) -> (r: usize)
        ensures
            r == self.spec_row(),
    {
        self.row
    }

    /// The advice inputs and outputs of the circuit.
    pub fn advice_io(&self) -> (r: &'io AdviceIO)
        ensures
            *r == self.spec_advice_io(),
    {
        self.advice_io
    }

    /// The row reached by the rotation, as [`rotated`] says.
    pub fn resolve_rotation(&self, rot: Rotation) -> (r: Result<usize, ResolveError>)
        ensures
            r == rotated(self.spec_row(), rot),
    {
        if self.row > isize::MAX as usize {
            return Err(ResolveError::RowOverflow);
        }
        let row: isize = self.row as isize;
        let rot: isize = rot.0 as isize;
        if rot < 0 && row + rot < 0 {
            return Err(ResolveError::RowUnderflow);
        }
        match row.checked_add(rot) {
            Some(r) => Ok(r as usize),
            None => Err(ResolveError::RowOverflow),
        }
    }

    /// The variable of the cell of the column at the row reached by the rotation, as
    /// [`io_variable`] says, with the absolute advice cell as the fallback.
    pub fn resolve<C: ColumnType>(&self, io: &CircuitIO<C>, col: usize, rot: Rotation) -> (r: Result<FuncIO, ResolveError>)
        ensures
            r == (match rotated(self.spec_row(), rot) {
                Err(e) => Err(e),
                Ok(row) => io_variable(*io, col, row, FuncIO::Advice { col, row, base: None }),
            }),
    {
        let row = match self.resolve_rotation(rot) {
            Ok(row) => row,
            Err(e) => return Err(e),
        };
        resolve_io(io, col, row, FuncIO::advice_abs(col, row))
    }

    /// Shifts an advice input or output after the instance ones, as [`stepped`] says.
    pub fn step_advice_io(&self, io: FuncIO) -> (r: Result<FuncIO, ResolveError>)
        ensures
            r == stepped(io, self.spec_instance_io().spec_inputs().len(), self.spec_instance_io().spec_outputs().len()),
    {
        let ni = self.instance_io.inputs().len();
        let no = self.instance_io.outputs().len();
        match io {
            FuncIO::Arg(n) => match n.checked_add(ni) {
                Some(m) => Ok(FuncIO::Arg(m)),
                None => Err(ResolveError::RowOverflow),
            },
            FuncIO::Field(n) => match n.checked_add(no) {
                Some(m) => Ok(FuncIO::Field(m)),
                None => Err(ResolveError::RowOverflow),
            },
            other => Ok(other),
        }
    }
}

/// The position of the first cell of the list at the column and row, as [`find_cell`] says.
pub fn find_io_cell<C: ColumnType>(io: &[(Column<C>, usize)], col: usize, row: usize) -> (r: Option<usize>)
    ensures
        r == find_cell(io@, col, row),
{
    let mut i: usize = 0;
    while i < io.len()
        invariant
            i <= io@.len(),
            find_cell(io@.take(i as int), col, row) is None,
        decreases io@.len() - i,
    {
        proof {
            assert(io@.take(i + 1).drop_last() =~= io@.take(i as int));
        }
        if io[i].0.index == col && io[i].1 == row {
            proof {
                lemma_find_cell_prefix(io@, i + 1, col, row);
            }
            return Some(i);
        }
        i = i + 1;
    }
    proof {
        assert(io@.take(i as int) =~= io@);
    }
    None
}

/// A cell found in a prefix is found at the same position in the whole list.
proof fn lemma_find_cell_prefix<C: ColumnType>(io: Seq<(Column<C>, usize)>, n: int, col: usize, row: usize)
    requires
        0 <= n <= io.len(),
        find_cell(io.take(n), col, row) is Some,
    ensures
        find_cell(io, col, row) == find_cell(io.take(n), col, row),
    decreases io.len() - n,
{
    if n < io.len() {
        assert(io.take(n + 1).drop_last() =~= io.take(n));
        lemma_find_cell_prefix(io, n + 1, col, row);
    } else {
        assert(io.take(n) =~= io);
    }
}

/// The variable of the cell of the column at the row, if it is an input or an output, as
/// [`io_position`] says.
pub fn resolve_io_position<C: ColumnType>(io: &CircuitIO<C>, col: usize, row: usize) -> (r: Result<Option<FuncIO>, ResolveError>)
    ensures
        r == io_position(*io, col, row),
{
    let as_input = find_io_cell(io.inputs(), col, row);
    let as_output = find_io_cell(io.outputs(), col, row);
    match (as_input, as_output) {
        (None, None) => Ok(None),
        (Some(i), None) => Ok(Some(FuncIO::Arg(i))),
        (None, Some(i)) => Ok(Some(FuncIO::Field(i))),
        (Some(_), Some(_)) => Err(ResolveError::InputAndOutput),
    }
}

/// The variable of the cell of the column at the row, as [`io_variable`] says.
pub fn resolve_io<C: ColumnType>(io: &CircuitIO<C>, col: usize, row: usize, fallback: FuncIO) -> (r: Result<FuncIO, ResolveError>)
    ensures
        r == io_variable(*io, col, row, fallback),
{
    match resolve_io_position(io, col, row) {
        Err(e) => Err(e),
        Ok(None) => Ok(fallback),
        Ok(Some(v)) => Ok(v),
    }
}

impl<'io, 'fq, R: FixedQueryResolver> QueryResolver for Row<'io, 'fq, R> {
    open spec fn fixed_spec(&self, q: Query) -> Result<ResolvedValue, ResolveError> {
        fixed_at(self.spec_fqr(), self.spec_row(), q)
    }

    /// An advice cell is the variable of the advice inputs and outputs, shifted after the
    /// instance ones.
    open spec fn advice_spec(&self, q: Query) -> Result<ResolvedValue, ResolveError> {
        match rotated(self.spec_row(), q.rotation) {
            Err(e) => Err(e),
            Ok(row) => match io_variable(self.spec_advice_io(), q.column_index, row, FuncIO::Advice { col: q.column_index, row, base: None }) {
                Err(e) => Err(e),
                Ok(v) => match stepped(v, self.spec_instance_io().spec_inputs().len(), self.spec_instance_io().spec_outputs().len()) {
                    Err(e) => Err(e),
                    Ok(s) => Ok(ResolvedValue::IO(s)),
                },
            },
        }
    }

    open spec fn instance_spec(&self, q: Query) -> Result<ResolvedValue, ResolveError> {
        match rotated(self.spec_row(), q.rotation) {
            Err(e) => Err(e),
            Ok(row) => match io_variable(self.spec_instance_io(), q.column_index, row, FuncIO::Advice { col: q.column_index, row, base: None }) {
                Err(e) => Err(e),
                Ok(v) => Ok(ResolvedValue::IO(v)),
            },
        }
    }

    fn resolve_fixed_query(&self, q: &Query) -> (r: Result<ResolvedQuery, ResolveError>) {
        let row = match self.resolve_rotation(q.rotation) {
            Ok(row) => row,
            Err(e) => return Err(e),
        };
        match self.fqr.resolve_query(q, row) {
            Ok(f) => Ok(ResolvedQuery::Lit(f)),
            Err(e) => Err(e),
        }
    }

    fn resolve_advice_query(&self, q: &Query) -> (r: Result<ResolvedQuery, ResolveError>) {
        let v = match self.resolve(self.advice_io, q.column_index, q.rotation) {
            Ok(v) => v,
            Err(e) => return Err(e),
        };
        match self.step_advice_io(v) {
            Ok(s) => Ok(ResolvedQuery::IO(s)),
            Err(e) => Err(e),
        }
    }

    fn resolve_instance_query(&self, q: &Query) -> (r: Result<ResolvedQuery, ResolveError>) {
        match self.resolve(self.instance_io, q.column_index, q.rotation) {
            Ok(v) => Ok(ResolvedQuery::IO(v)),
            Err(e) => Err(e),
        }
    }
}

impl<'io, 'fq, R: FixedQueryResolver> SelectorResolver for Row<'io, 'fq, R> {
    /// Outside of a region no selector has a value.
    open spec fn selector_spec(&self, s: Selector) -> Result<ResolvedSelector, ResolveError> {
        Err(ResolveError::SelectorOutsideRegion)
    }

    fn resolve_selector(&self, s: &Selector) -> (r: Result<ResolvedSelector, ResolveError>) {
        Err(ResolveError::SelectorOutsideRegion)
    }
}

impl<'io, 'fq, R: FixedQueryResolver> ChallengeResolver for Row<'io, 'fq, R> {
    /// A challenge is the variable of its index.
    open spec fn challenge_spec(&self, index: usize) -> Result<FuncIO, ResolveError> {
        Ok(FuncIO::Challenge(index))
    }

    fn resolve_challenge(&self, index: usize) -> (r: Result<FuncIO, ResolveError>) {
        Ok(FuncIO::Challenge(index))
    }
}

} // verus!

//! The cells that are inputs and outputs of a circuit or of a group.
use vstd::prelude::*;
use crate::resolvers::{Advice, Instance};
use crate::support::roles::{CellRole, Roles};
use crate::table::{Any, Cell, Column, ColumnType};

verus! {

/// A cell given by its column and absolute row.
pub type IOCell<C> = (Column<C>, usize);

/// The input and output cells of a circuit or of a group, of one column type.
#[derive(Debug)]
pub struct CircuitIO<C: ColumnType> {
    inputs: Vec<(Column<C>, usize)>,
    outputs: Vec<(Column<C>, usize)>,
}

/// Inputs and outputs in advice cells.
pub type AdviceIO = CircuitIO<Advice>;

/// Inputs and outputs in instance cells.
pub type InstanceIO = CircuitIO<Instance>;

impl<C: ColumnType> CircuitIO<C> {
    /// The input cells, in order.
    pub closed spec fn spec_inputs(&self) -> Seq<(Column<C>, usize)> {
        self.inputs@
    }

    /// The output cells, in order.
    pub closed spec fn spec_outputs(&self) -> Seq<(Column<C>, usize)> {
        self.outputs@
    }

    /// The inputs and outputs given.
    pub fn new_from_iocells(inputs: Vec<(Column<C>, usize)>, outputs: Vec<(Column<C>, usize)>) -> (r: Self)
        ensures
            r.spec_inputs() == inputs@,
            r.spec_outputs() == outputs@,
    {
        CircuitIO { inputs, outputs }
    }

    /// No input and no output.
    pub fn empty() -> (r: Self)
        ensures
            r.spec_inputs().len() == 0,
            r.spec_outputs().len() == 0,
    {
        CircuitIO { inputs: Vec::new(), outputs: Vec::new() }
    }

    /// Adds an input after the others.
    pub fn add_input(&mut self, cell: (Column<C>, usize))
        ensures
            final(self).spec_inputs() == old(self).spec_inputs().push(cell),
            final(self).spec_outputs() == old(self).spec_outputs(),
    {
        self.inputs.push(cell);
    }

    /// The input cells, in order.
    pub fn inputs(&self) -> (r: &[(Column<C>, usize)])
        ensures
            r@ == self.spec_inputs(),
    {
        self.inputs.as_slice()
    }

    /// The output cells, in order.
    pub fn outputs(&self) -> (r: &[(Column<C>, usize)])
        ensures
            r@ == self.spec_outputs(),
    {
        self.outputs.as_slice()
    }
}

/// Why a cell could not be recorded as an input or an output.
#[derive(Debug, Clone, Copy, PartialEq, Eq, Structural)]
pub enum IOError {
    /// The cell is not an advice cell.
    NotAdvice,
    /// The role is neither input nor output.
    NotInputOrOutput,
}

/// The advice cell that records a cell: its column, and its row offset.
pub open spec fn io_cell_of(cell: Cell) -> (Column<Advice>, usize) {
    (Column { index: cell.column.index, column_type: Advice }, cell.row_offset)
}

impl CircuitIO<Advice> {
    /// Adds an output after the others.
    pub fn add_output(&mut self, cell: (Column<Advice>, usize))
        ensures
            final(self).spec_outputs() == old(self).spec_outputs().push(cell),
            final(self).spec_inputs() == old(self).spec_inputs(),
    {
        self.outputs.push(cell);
    }

    /// Records an advice cell with its role, as the cell of its column at its row offset: an
    /// input after the inputs, an output after the outputs. A cell that is not an advice cell,
    /// or a role that is neither, is an error and records nothing.
    pub fn add(&mut self, cell: Cell, role: CellRole<Advice>) -> (r: Result<(), IOError>)
        ensures
            cell.column.column_type != Any::Advice ==> r == Err::<(), IOError>(IOError::NotAdvice),
            cell.column.column_type == Any::Advice && role.spec_role() == Roles::Intermediate ==> r
                == Err::<(), IOError>(IOError::NotInputOrOutput),
            r is Err ==> *final(self) == *old(self),
            r is Ok <==> cell.column.column_type == Any::Advice && role.spec_role() != Roles::Intermediate,
            r is Ok && role.spec_role() == Roles::Input ==> final(self).spec_inputs() == old(self).spec_inputs().push(io_cell_of(cell))
                && final(self).spec_outputs() == old(self).spec_outputs(),
            r is Ok && role.spec_role() == Roles::Output ==> final(self).spec_outputs() == old(self).spec_outputs().push(io_cell_of(cell))
                && final(self).spec_inputs() == old(self).spec_inputs(),
    {
        if cell.column.column_type != Any::Advice {
            return Err(IOError::NotAdvice);
        }
        let io_cell = (Column { index: cell.column.index, column_type: Advice }, cell.row_offset);
        match role.role() {
            Roles::Input => {
                self.add_input(io_cell);
                Ok(())
            },
            Roles::Output => {
                self.add_output(io_cell);
                Ok(())
            },
            Roles::Intermediate => Err(IOError::NotInputOrOutput),
        }
    }
}

} // verus!

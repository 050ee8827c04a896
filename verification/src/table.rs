//! Types related to PLONK tables: columns and cells.
use vstd::prelude::*;
use crate::poly::{Expression, Query, Rotation};
use crate::resolvers::{Advice, Fixed, Instance};
use crate::synthesis::regions::RegionIndex;

verus! {

/// Erased column type.
#[derive(Debug, Copy, Clone, Eq, PartialEq, Structural, Hash)]
pub enum Any {
    /// Fixed type.
    Fixed,
    /// Advice type.
    Advice,
    /// Instance type.
    Instance,
}

/// The query of the cell of column `index` at rotation `at`, of the given kind.
pub open spec fn query_of(kind: Any, index: usize, at: Rotation) -> Expression {
    let q = Query { column_index: index, rotation: at };
    match kind {
        Any::Fixed => Expression::Fixed(q),
        Any::Advice => Expression::Advice(q),
        Any::Instance => Expression::Instance(q),
    }
}

/// Column type.
pub trait ColumnType: Copy + Sized {
    /// The erased type of the column.
    spec fn kind_spec(&self) -> Any;

    /// The erased type of the column.
    fn kind(&self) -> (r: Any)
        ensures
            r == self.kind_spec();

    /// Constructs a polynomial representing a query to the cell.
    fn query_cell(&self, index: usize, at: Rotation) -> (r: Expression)
        ensures
            r == query_of(self.kind_spec(), index, at);
}

/// Builds the query of the given kind.
fn make_query(kind: Any, index: usize, at: Rotation) -> (r: Expression)
    ensures
        r == query_of(kind, index, at),
{
    let q = Query { column_index: index, rotation: at };
    match kind {
        Any::Fixed => Expression::Fixed(q),
        Any::Advice => Expression::Advice(q),
        Any::Instance => Expression::Instance(q),
    }
}

impl ColumnType for Any {
    open spec fn kind_spec(&self) -> Any {
        *self
    }

    fn kind(&self) -> (r: Any) {
        *self
    }

    fn query_cell(&self, index: usize, at: Rotation) -> (r: Expression) {
        make_query(*self, index, at)
    }
}

impl ColumnType for Fixed {
    open spec fn kind_spec(&self) -> Any {
        Any::Fixed
    }

    fn kind(&self) -> (r: Any) {
        Any::Fixed
    }

    fn query_cell(&self, index: usize, at: Rotation) -> (r: Expression) {
        make_query(Any::Fixed, index, at)
    }
}

impl ColumnType for Advice {
    open spec fn kind_spec(&self) -> Any {
        Any::Advice
    }

    fn kind(&self) -> (r: Any) {
        Any::Advice
    }

    fn query_cell(&self, index: usize, at: Rotation) -> (r: Expression) {
        make_query(Any::Advice, index, at)
    }
}

impl ColumnType for Instance {
    open spec fn kind_spec(&self) -> Any {
        Any::Instance
    }

    fn kind(&self) -> (r: Any) {
        Any::Instance
    }

    fn query_cell(&self, index: usize, at: Rotation) -> (r: Expression) {
        make_query(Any::Instance, index, at)
    }
}

/// A column with a type.
#[derive(Debug, Copy, Clone, PartialEq, Eq, Hash)]
pub struct Column<C: ColumnType> {
    /// Index of the column.
    pub index: usize,
    /// Type of the column.
    pub column_type: C,
}

impl<C: ColumnType> Column<C> {
    /// Creates a new column.
    pub fn new(index: usize, column_type: C) -> (r: Self)
        ensures
            r == (Column { index, column_type }),
    {
        Column { index, column_type }
    }

    /// Returns the index of a column.
    pub fn index(&self) -> (r: usize)
        ensures
            r == self.index,
    {
        self.index
    }

    /// Returns the column type.
    pub fn column_type(&self) -> (r: &C)
        ensures
            *r == self.column_type,
    {
        &self.column_type
    }

    /// Creates an expression representing a query to a cell in this column.
    pub fn query_cell(&self, at: Rotation) -> (r: Expression)
        ensures
            r == query_of(self.column_type.kind_spec(), self.index, at),
    {
        self.column_type.query_cell(self.index, at)
    }

    /// The same column with its type erased.
    pub fn erased(&self) -> (r: Column<Any>)
        ensures
            r == (Column { index: self.index, column_type: self.column_type.kind_spec() }),
    {
        Column { index: self.index, column_type: self.column_type.kind() }
    }
}

impl Column<Any> {
    /// The column as a fixed column, if it is one.
    pub fn as_fixed(&self) -> (r: Option<Column<Fixed>>)
        ensures
            r is Some <==> self.column_type == Any::Fixed,
            r matches Some(c) ==> c.index == self.index,
    {
        match self.column_type {
            Any::Fixed => Some(Column { index: self.index, column_type: Fixed }),
            _ => None,
        }
    }

    /// The column as an advice column, if it is one.
    pub fn as_advice(&self) -> (r: Option<Column<Advice>>)
        ensures
            r is Some <==> self.column_type == Any::Advice,
            r matches Some(c) ==> c.index == self.index,
    {
        match self.column_type {
            Any::Advice => Some(Column { index: self.index, column_type: Advice }),
            _ => None,
        }
    }

    /// The column as an instance column, if it is one.
    pub fn as_instance(&self) -> (r: Option<Column<Instance>>)
        ensures
            r is Some <==> self.column_type == Any::Instance,
            r matches Some(c) ==> c.index == self.index,
    {
        match self.column_type {
            Any::Instance => Some(Column { index: self.index, column_type: Instance }),
            _ => None,
        }
    }
}

/// Represents a cell in the table.
#[derive(Debug, Copy, Clone)]
pub struct Cell {
    /// The index of the region this cell belongs to.
    pub region_index: RegionIndex,
    /// Offset relative to the region of the cell's row.
    pub row_offset: usize,
    /// The cell's column.
    pub column: Column<Any>,
}

impl Cell {
    /// Whether two cells are the same cell.
    pub fn same(&self, other: &Cell) -> (r: bool)
        ensures
            r == (*self == *other),
    {
        self.region_index.0 == other.region_index.0 && self.row_offset == other.row_offset
            && self.column.index == other.column.index && self.column.column_type
            == other.column.column_type
    }
}

impl PartialEq for Cell {
    fn eq(&self, other: &Cell) -> (r: bool) {
        self.same(other)
    }
}

impl vstd::std_specs::cmp::PartialEqSpecImpl for Cell {
    open spec fn obeys_eq_spec() -> bool {
        true
    }

    open spec fn eq_spec(&self, other: &Cell) -> bool {
        *self == *other
    }
}

impl Eq for Cell {
}

} // verus!

//! Resolution of queries at a row of a region.
use vstd::prelude::*;
use crate::func_io::FuncIO;
use crate::io::{AdviceIO, InstanceIO};
use crate::poly::{Query, Selector};
use crate::resolvers::{
    Bool, ChallengeResolver, FixedQueryResolver, QueryResolver, ResolveError, ResolvedQuery,
    ResolvedSelector, ResolvedValue, SelectorResolver,
};
use crate::synthesis::regions::RegionIndex;
use super::data::{RegionData, RegionKind, header_of};
use super::row::{Row, fixed_at, io_position, resolve_io_position, rotated, stepped};

verus! {

/// The kind of row a [`RegionRow`] is using, for resolving advice queries.
#[derive(Copy, Clone, Debug, PartialEq, Eq, Structural)]
pub enum RowMode {
    /// The row is absolute to the circuit.
    Absolute,
    /// The row is relative to the first row of the circuit.
    Relative,
}

impl Default for RowMode {
    fn default() -> (r: RowMode)
        ensures
            r == RowMode::Absolute,
    {
        RowMode::Absolute
    }
}

/// The variable of an advice cell of a region that is neither an input nor an output: in
/// absolute mode, a cell within the rows of the region is relative to the first row `base`
/// at ten times its offset, and any other cell is absolute; in relative mode the cell is
/// relative to `base` at the row itself.
pub open spec fn region_advice_cell(mode: RowMode, rows: Option<(usize, usize)>, col: usize, base: usize, row: usize) -> Result<FuncIO, ResolveError> {
    match mode {
        RowMode::Absolute => match rows {
            Some((s, e)) => if s <= row <= e {
                if (row - s) * 10 <= usize::MAX {
                    Ok(FuncIO::Advice { col, row: ((row - s) * 10) as usize, base: Some(base) })
                } else {
                    Err(ResolveError::RowOverflow)
                }
            } else {
                Ok(FuncIO::Advice { col, row, base: None })
            },
            None => Ok(FuncIO::Advice { col, row, base: None }),
        },
        RowMode::Relative => Ok(FuncIO::Advice { col, row, base: Some(base) }),
    }
}

/// The first row of the region, if it has rows.
pub open spec fn region_start(rows: Option<(usize, usize)>) -> Option<usize> {
    match rows {
        Some((s, _)) => Some(s),
        None => None,
    }
}

/// A row of a region, with the inputs and outputs of the circuit.
#[derive(Copy, Clone)]
pub struct RegionRow<'r, 'io, 'fq, R> {
    region: RegionData<'r>,
    row: Row<'io, 'fq, R>,
    mode: RowMode,
}

/// What identifies a row of a region: the index and name of the region and the row number.
pub trait RegionRowLike {
    /// Index of the region, if it has one.
    spec fn spec_region_index(&self) -> Option<usize>;

    /// Name of the region.
    spec fn spec_region_name(&self) -> Seq<char>;

    /// The row number.
    spec fn spec_row_number(&self) -> usize;

    /// Index of the region.
    fn region_index(&self) -> (r: Option<usize>)
        ensures
            r == self.spec_region_index();

    /// Name of the region.
    fn region_name(&self) -> (r: &str)
        ensures
            r@ == self.spec_region_name();

    /// The row number.
    fn row_number(&self) -> (r: usize)
        ensures
            r == self.spec_row_number();
}

impl<'r, 'io, 'fq, R: FixedQueryResolver> RegionRow<'r, 'io, 'fq, R> {
    /// The region.
    pub closed spec fn spec_region(&self) -> RegionData<'r> {
        self.region
    }

    /// The row, with the inputs and outputs of the circuit.
    pub closed spec fn spec_row(&self) -> Row<'io, 'fq, R> {
        self.row
    }

    /// The mode for advice queries.
    pub closed spec fn spec_mode(&self) -> RowMode {
        self.mode
    }

    /// The row of the region in absolute mode.
    pub fn new(region: RegionData<'r>, row: usize, advice_io: &'io AdviceIO, instance_io: &'io InstanceIO, fqr: &'fq R) -> (r: Self)
        ensures
            r.spec_region() == region,
            r.spec_row().spec_row() == row,
            r.spec_row().spec_advice_io() == *advice_io,
            r.spec_row().spec_instance_io() == *instance_io,
            r.spec_row().spec_fqr() == *fqr,
            r.spec_mode() == RowMode::Absolute,
    {
        Self::new_with_mode(region, row, RowMode::default(), advice_io, instance_io, fqr)
    }

    /// The row of the region in the given mode.
    pub fn new_with_mode(region: RegionData<'r>, row: usize, mode: RowMode, advice_io: &'io AdviceIO, instance_io: &'io InstanceIO, fqr: &'fq R) -> (r: Self)
        ensures
            r.spec_region() == region,
            r.spec_row().spec_row() == row,
            r.spec_row().spec_advice_io() == *advice_io,
            r.spec_row().spec_instance_io() == *instance_io,
            r.spec_row().spec_fqr() == *fqr,
            r.spec_mode() == mode,
    {
        RegionRow { region, row: Row::new(row, advice_io, instance_io, fqr), mode }
    }

    /// The header of the region, as [`header_of`] says. A table has no index.
    pub fn header(&self) -> (r: String)
        requires
            self.spec_region().data().spec_kind() == RegionKind::Table ==> self.spec_region().data().spec_index() is None,
        ensures
            r@ == header_of(self.spec_region().data().spec_kind(), self.spec_region().data().spec_index(),
                self.spec_region().data().spec_name()),
    {
        self.region.header()
    }

    /// The selectors enabled at the row, each once.
    fn enabled(&self) -> (r: Vec<Selector>)
        ensures
            forall|s: Selector| r@.contains(s) <==> self.spec_region().data().enabled(s, self.spec_row().spec_row()),
    {
        self.region.selectors_enabled_for_row(self.row.row())
    }

    /// Whether none of the selectors is enabled at the row, which switches off a gate they guard.
    pub fn gate_is_disabled(&self, selectors: &Vec<Selector>) -> (r: bool)
        ensures
            r == forall|i: int| 0 <= i < selectors@.len()
                ==> !self.spec_region().data().enabled(#[trigger] selectors@[i], self.spec_row().spec_row()),
    {
        let enabled = self.enabled();
        let mut i: usize = 0;
        while i < selectors.len()
            invariant
                i <= selectors@.len(),
                forall|s: Selector| enabled@.contains(s) <==> self.spec_region().data().enabled(s, self.spec_row().spec_row()),
                forall|j: int| 0 <= j < i ==> !self.spec_region().data().enabled(#[trigger] selectors@[j], self.spec_row().spec_row()),
            decreases selectors@.len() - i,
        {
            if contains_selector(&enabled, &selectors[i]) {
                return false;
            }
            i = i + 1;
        }
        true
    }

    /// The variable of an advice cell that is neither an input nor an output, as
    /// [`region_advice_cell`] says.
    fn advice_cell(&self, col: usize, base: usize, row: usize) -> (r: Result<FuncIO, ResolveError>)
        ensures
            r == region_advice_cell(self.spec_mode(), self.spec_region().data().spec_rows(), col, base, row),
    {
        match self.mode {
            RowMode::Absolute => match self.region.relativize(row) {
                Some(off) => match off.checked_mul(10) {
                    Some(o) => Ok(FuncIO::advice_rel(col, base, o)),
                    None => Err(ResolveError::RowOverflow),
                },
                None => Ok(FuncIO::advice_abs(col, row)),
            },
            RowMode::Relative => Ok(FuncIO::advice_rel(col, base, row)),
        }
    }
}

/// Whether the selector is in the list.
fn contains_selector(list: &Vec<Selector>, s: &Selector) -> (r: bool)
    ensures
        r == list@.contains(*s),
{
    let mut i: usize = 0;
    while i < list.len()
        invariant
            i <= list@.len(),
            forall|j: int| 0 <= j < i ==> list@[j] != *s,
        decreases list@.len() - i,
    {
        if list[i] == *s {
            return true;
        }
        i = i + 1;
    }
    false
}

impl<'r, 'io, 'fq, R: FixedQueryResolver> RegionRowLike for RegionRow<'r, 'io, 'fq, R> {
    /// The number of the region's index.
    open spec fn spec_region_index(&self) -> Option<usize> {
        match self.spec_region().data().spec_index() {
            Some(RegionIndex(i)) => Some(i),
            None => None,
        }
    }

    /// The region's name.
    open spec fn spec_region_name(&self) -> Seq<char> {
        self.spec_region().data().spec_name()
    }

    /// The row, as a number.
    open spec fn spec_row_number(&self) -> usize {
        self.spec_row().spec_row()
    }

    fn region_index(&self) -> (r: Option<usize>) {
        match self.region.index() {
            Some(RegionIndex(i)) => Some(i),
            None => None,
        }
    }

    fn region_name(&self) -> (r: &str) {
        self.region.name()
    }

    fn row_number(&self) -> (r: usize) {
        self.row.row()
    }
}

impl<'r, 'io, 'fq, R: FixedQueryResolver> QueryResolver for RegionRow<'r, 'io, 'fq, R> {
    open spec fn fixed_spec(&self, q: Query) -> Result<ResolvedValue, ResolveError> {
        fixed_at(self.spec_row().spec_fqr(), self.spec_row().spec_row(), q)
    }

    /// An advice cell needs the first row of the region; an input or output is the variable
    /// of the advice inputs and outputs shifted after the instance ones, another cell is as
    /// [`region_advice_cell`] says.
    open spec fn advice_spec(&self, q: Query) -> Result<ResolvedValue, ResolveError> {
        let rows = self.spec_region().data().spec_rows();
        let row = self.spec_row();
        match region_start(rows) {
            None => Err(ResolveError::RegionWithoutStart),
            Some(base) => match rotated(row.spec_row(), q.rotation) {
                Err(e) => Err(e),
                Ok(r) => match io_position(row.spec_advice_io(), q.column_index, r) {
                    Err(e) => Err(e),
                    Ok(Some(v)) => match stepped(v, row.spec_instance_io().spec_inputs().len(), row.spec_instance_io().spec_outputs().len()) {
                        Err(e) => Err(e),
                        Ok(s) => Ok(ResolvedValue::IO(s)),
                    },
                    Ok(None) => match region_advice_cell(self.spec_mode(), rows, q.column_index, base, r) {
                        Err(e) => Err(e),
                        Ok(v) => Ok(ResolvedValue::IO(v)),
                    },
                },
            },
        }
    }

    open spec fn instance_spec(&self, q: Query) -> Result<ResolvedValue, ResolveError> {
        self.spec_row().instance_spec(q)
    }

    fn resolve_fixed_query(&self, q: &Query) -> (r: Result<ResolvedQuery, ResolveError>) {
        self.row.resolve_fixed_query(q)
    }

    fn resolve_advice_query(&self, q: &Query) -> (r: Result<ResolvedQuery, ResolveError>) {
        let base = match self.region.start() {
            Some(b) => b,
            None => return Err(ResolveError::RegionWithoutStart),
        };
        let r = match self.row.resolve_rotation(q.rotation) {
            Ok(r) => r,
            Err(e) => return Err(e),
        };
        match resolve_io_position(self.row.advice_io(), q.column_index, r) {
            Err(e) => Err(e),
            Ok(Some(v)) => match self.row.step_advice_io(v) {
                Ok(s) => Ok(ResolvedQuery::IO(s)),
                Err(e) => Err(e),
            },
            Ok(None) => match self.advice_cell(q.column_index, base, r) {
                Ok(v) => Ok(ResolvedQuery::IO(v)),
                Err(e) => Err(e),
            },
        }
    }

    fn resolve_instance_query(&self, q: &Query) -> (r: Result<ResolvedQuery, ResolveError>) {
        self.row.resolve_instance_query(q)
    }
}

impl<'r, 'io, 'fq, R: FixedQueryResolver> SelectorResolver for RegionRow<'r, 'io, 'fq, R> {
    /// A selector is the constant telling whether it is enabled at the row of the region.
    open spec fn selector_spec(&self, s: Selector) -> Result<ResolvedSelector, ResolveError> {
        Ok(ResolvedSelector::Const(Bool(self.spec_region().data().enabled(s, self.spec_row().spec_row()))))
    }

    fn resolve_selector(&self, s: &Selector) -> (r: Result<ResolvedSelector, ResolveError>) {
        let enabled = self.enabled();
        Ok(ResolvedSelector::Const(Bool(contains_selector(&enabled, s))))
    }
}

impl<'r, 'io, 'fq, R: FixedQueryResolver> ChallengeResolver for RegionRow<'r, 'io, 'fq, R> {
    /// A challenge is the variable of its index.
    open spec fn challenge_spec(&self, index: usize) -> Result<FuncIO, ResolveError> {
        Ok(FuncIO::Challenge(index))
    }

    fn resolve_challenge(&self, index: usize) -> (r: Result<FuncIO, ResolveError>) {
        Ok(FuncIO::Challenge(index))
    }
}

} // verus!

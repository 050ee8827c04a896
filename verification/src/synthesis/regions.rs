//! Regions of a circuit and their indices.
use vstd::prelude::*;
use crate::poly::Selector;
use crate::resolvers::Fixed;
use crate::table::{Any, Column};
use data::{RegionData, RegionDataImpl, RegionKind, extent_updated, has_column, selector_enabled, namespace_pushed, namespace_popped};

pub mod data;
pub mod fixed;
pub mod fqn;
pub mod region_row;
pub mod row;
pub mod table;

verus! {

/// The first row of a region.
#[derive(Debug, Clone, Copy, PartialEq, Eq, Structural)]
pub struct RegionStart(pub usize);

impl RegionStart {
    /// The region start at the given row.
    pub fn new(row: usize) -> (r: Self)
        ensures
            r.0 == row,
    {
        RegionStart(row)
    }
}

/// The index of a region, in the order in which synthesis created the regions.
#[derive(Debug, Clone, Copy, PartialEq, Eq, Structural, Hash)]
pub struct RegionIndex(pub usize);

impl RegionIndex {
    /// The index as a number.
    pub fn get(&self) -> (r: usize)
        ensures
            r == self.0,
    {
        self.0
    }
}

impl From<usize> for RegionIndex {
    fn from(value: usize) -> (r: RegionIndex) {
        RegionIndex(value)
    }
}

impl vstd::std_specs::convert::FromSpecImpl<usize> for RegionIndex {
    open spec fn obeys_from_spec() -> bool {
        true
    }

    open spec fn from_spec(v: usize) -> RegionIndex {
        RegionIndex(v)
    }
}

/// A change to the data of the current region.
#[derive(Debug)]
pub enum RegionEdit {
    /// A cell of the column at the row belongs to the region.
    UpdateExtent(Column<Any>, usize),
    /// The selector is enabled at the row.
    EnableSelector(Selector, usize),
    /// A namespace is opened.
    PushNamespace(String),
    /// A namespace is closed.
    PopNamespace(Option<String>),
}

/// `d` is the region `c` after the change, as the region's method for it says.
pub open spec fn edited(c: RegionDataImpl, d: RegionDataImpl, e: RegionEdit) -> bool {
    match e {
        RegionEdit::UpdateExtent(col, row) => extent_updated(c, d, col, row),
        RegionEdit::EnableSelector(sel, row) => selector_enabled(c, d, sel, row),
        RegionEdit::PushNamespace(n) => namespace_pushed(c, d, n@),
        RegionEdit::PopNamespace(n) => namespace_popped(c, d, match n { Some(x) => Some(x@), None => None }),
    }
}

/// `b` is `a` after the change: to its current region as [`edited`] says, when it has one;
/// else it is left as it is. The committed regions stay as they are.
pub open spec fn applied(a: Regions, b: Regions, e: RegionEdit) -> bool {
    &&& b.committed() == a.committed()
    &&& b.spec_last_is_table() == a.spec_last_is_table()
    &&& (b.spec_current() is Some <==> a.spec_current() is Some)
    &&& a.spec_current() is None ==> b == a
    &&& a.spec_current() matches Some(c) ==> edited(c, b.spec_current()->0, e)
}

/// `cols` lists the fixed columns of the region: each fixed column it has is listed, and only
/// those.
pub open spec fn fixed_columns_of(region: RegionDataImpl, cols: Seq<Column<Fixed>>) -> bool {
    &&& forall|i: int| 0 <= i < cols.len() ==> has_column(region.spec_columns(), Column { index: #[trigger] cols[i].index, column_type: Any::Fixed })
    &&& forall|c: Column<Any>| has_column(region.spec_columns(), c) && c.column_type == Any::Fixed ==> exists|i: int|
        0 <= i < cols.len() && #[trigger] cols[i].index == c.index
}

/// `b` is `a` with a new region of the name opened, as [`Regions::push`] says: when the last
/// committed region of `a` was marked as a table it leaves the regions for `tables` and its
/// index, if any, goes to the new region; else the new region takes the index `next` and the
/// next index moves on. The table that leaves lists the fixed columns of its region.
pub open spec fn pushed(a: Regions, b: Regions, name: Seq<char>, next: usize, next_after: usize,
    tables: Seq<Vec<Column<Fixed>>>, tables_after: Seq<Vec<Column<Fixed>>>) -> bool {
    let moved = a.spec_last_is_table() && a.committed().len() > 0;
    let reuse = if moved { a.committed().last().spec_index() } else { None };
    &&& b.spec_current() matches Some(c) && c.spec_name() == name && c.spec_kind() == RegionKind::Region
        && c.spec_rows() is None && c.spec_columns().len() == 0
    &&& !b.spec_last_is_table()
    &&& moved ==> b.committed() == a.committed().drop_last() && tables_after.len() == tables.len() + 1
        && tables_after.drop_last() == tables && fixed_columns_of(a.committed().last(), tables_after.last()@)
    &&& !moved ==> b.committed() == a.committed() && tables_after == tables
    &&& reuse matches Some(i) ==> b.spec_current()->0.spec_index() == Some(i) && next_after == next
    &&& reuse is None ==> b.spec_current()->0.spec_index() == Some(RegionIndex(next)) && next_after == next + 1
}

/// A set of regions: those committed, and the current one, if any.
#[derive(Debug)]
pub struct Regions {
    regions: Vec<RegionDataImpl>,
    current: Option<RegionDataImpl>,
    last_is_table: bool,
}

impl Regions {
    /// The regions committed, in order.
    pub closed spec fn committed(&self) -> Seq<RegionDataImpl> {
        self.regions@
    }

    /// The current region, if any.
    pub closed spec fn spec_current(&self) -> Option<RegionDataImpl> {
        self.current
    }

    /// Whether the last committed region was marked as a table.
    pub closed spec fn spec_last_is_table(&self) -> bool {
        self.last_is_table
    }

    /// No region.
    pub fn new() -> (r: Self)
        ensures
            r.committed().len() == 0,
            r.spec_current() is None,
            !r.spec_last_is_table(),
    {
        Regions { regions: Vec::new(), current: None, last_is_table: false }
    }

    /// Opens a new region with the given name. If the last committed region was marked as a
    /// table, it first leaves the regions: its fixed columns are added to `tables` and its
    /// index, if it has one, is reused by the new region. Otherwise the new region takes the
    /// index `next_index`, which then moves to the following one.
    pub fn push(&mut self, region_name: String, next_index: &mut usize, tables: &mut Vec<Vec<Column<Fixed>>>)
        requires
            old(self).spec_current() is None,
            *old(next_index) < usize::MAX,
        ensures
            pushed(*old(self), *final(self), region_name@, *old(next_index), *final(next_index), old(tables)@, final(tables)@),
    {
        let recovered = self.move_latest_to_tables(tables);
        let index = match recovered {
            Some(i) => i,
            None => {
                let i = RegionIndex(*next_index);
                *next_index = *next_index + 1;
                i
            },
        };
        self.current = Some(RegionDataImpl::new(region_name, index));
    }

    /// Moves the last committed region to the tables, if it was marked as one, and gives back
    /// its index for the next region to reuse.
    fn move_latest_to_tables(&mut self, tables: &mut Vec<Vec<Column<Fixed>>>) -> (r: Option<RegionIndex>)
        ensures
            !final(self).spec_last_is_table(),
            final(self).spec_current() == old(self).spec_current(),
            old(self).spec_last_is_table() && old(self).committed().len() > 0 ==> final(self).committed()
                == old(self).committed().drop_last() && r == old(self).committed().last().spec_index()
                && final(tables)@.len() == old(tables)@.len() + 1 && final(tables)@.drop_last() == old(tables)@
                && fixed_columns_of(old(self).committed().last(), final(tables)@.last()@),
            !(old(self).spec_last_is_table() && old(self).committed().len() > 0) ==> final(self).committed()
                == old(self).committed() && r is None && final(tables)@ == old(tables)@,
    {
        if !self.last_is_table {
            return None;
        }
        self.last_is_table = false;
        match self.regions.pop() {
            None => None,
            Some(table) => {
                let mut table = table;
                let recovered = table.take_index();
                tables.push(table.fixed_columns());
                recovered
            },
        }
    }

    /// Commits the current region to the list of regions.
    pub fn commit(&mut self)
        requires
            old(self).spec_current() is Some,
        ensures
            final(self).committed() == old(self).committed().push(old(self).spec_current()->0),
            final(self).spec_current() is None,
            final(self).spec_last_is_table() == old(self).spec_last_is_table(),
    {
        let region = self.current.take().unwrap();
        self.regions.push(region);
    }

    /// Applies the change to the current region, if there is one, and tells whether there was.
    pub fn edit(&mut self, e: RegionEdit) -> (r: Option<()>)
        ensures
            r is Some <==> old(self).spec_current() is Some,
            applied(*old(self), *final(self), e),
    {
        match self.current.take() {
            None => None,
            Some(region) => {
                let mut region = region;
                match e {
                    RegionEdit::UpdateExtent(col, row) => region.update_extent(col, row),
                    RegionEdit::EnableSelector(sel, row) => region.enable_selector(sel, row),
                    RegionEdit::PushNamespace(n) => region.push_namespace(n),
                    RegionEdit::PopNamespace(n) => region.pop_namespace(n),
                }
                self.current = Some(region);
                Some(())
            },
        }
    }

    /// Views of the committed regions, in order.
    pub fn regions<'a>(&'a self) -> (r: Vec<RegionData<'a>>)
        ensures
            r@.len() == self.committed().len(),
            forall|i: int| 0 <= i < r@.len() ==> *r@[i].data() == self.committed()[i],
    {
        let mut out: Vec<RegionData<'a>> = Vec::new();
        let mut i: usize = 0;
        while i < self.regions.len()
            invariant
                i <= self.regions@.len(),
                out@.len() == i,
                forall|k: int| 0 <= k < i ==> *out@[k].data() == self.regions@[k],
            decreases self.regions@.len() - i,
        {
            out.push(RegionData::new(&self.regions[i]));
            i = i + 1;
        }
        out
    }

    /// Marks the last region as a table; it leaves the regions when the next one is opened.
    /// There must be no current region.
    pub fn mark_region(&mut self)
        requires
            old(self).spec_current() is None,
        ensures
            final(self).spec_last_is_table(),
            final(self).committed() == old(self).committed(),
            final(self).spec_current() is None,
    {
        self.last_is_table = true;
    }
}

impl Default for Regions {
    fn default() -> (r: Self)
        ensures
            r.committed().len() == 0,
            r.spec_current() is None,
            !r.spec_last_is_table(),
    {
        Regions::new()
    }
}

} // verus!

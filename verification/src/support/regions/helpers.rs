//! Detection of the index of the region that a layouter assigns cells in.
use vstd::prelude::*;
use crate::synthesis::regions::RegionIndex;
use crate::table::Cell;

verus! {

/// The cells assigned through one region did not all belong to the same region.
#[derive(Debug, Clone, Copy, PartialEq, Eq, Structural)]
pub enum RegionIndexError {
    /// The index seen first, and the different index that a later cell had.
    Inconsistent { known: RegionIndex, given: RegionIndex },
}

/// Watches the cells that a region assigns and remembers the index of their region.
///
/// The first cell fixes the index; every later cell must belong to the same region.
#[derive(Debug)]
pub struct RegionLayouterHelper {
    detected_region_index: Option<RegionIndex>,
}

impl RegionLayouterHelper {
    /// The index seen so far, if a cell was assigned.
    pub closed spec fn detected(&self) -> Option<RegionIndex> {
        self.detected_region_index
    }

    /// A helper that has seen no cell yet.
    pub fn new() -> (r: Self)
        ensures
            r.detected() is None,
    {
        RegionLayouterHelper { detected_region_index: None }
    }

    /// The index of the region the assigned cells belong to, if any cell was assigned.
    pub fn index(&self) -> (r: Option<RegionIndex>)
        ensures
            r == self.detected(),
    {
        self.detected_region_index
    }

    /// Records the region of a cell and hands the payload back.
    ///
    /// The first cell fixes the index. A later cell of another region is an error and leaves
    /// the helper as it was.
    pub fn detect_index<P>(&mut self, cell: Cell, payload: P) -> (r: Result<P, RegionIndexError>)
        ensures
            match old(self).detected() {
                Some(known) => if known == cell.region_index {
                    r == Ok::<P, RegionIndexError>(payload) && final(self).detected() == old(self).detected()
                } else {
                    r == Err::<P, RegionIndexError>(
                        RegionIndexError::Inconsistent { known, given: cell.region_index },
                    ) && final(self).detected() == old(self).detected()
                },
                None => r == Ok::<P, RegionIndexError>(payload) && final(self).detected() == Some(
                    cell.region_index,
                ),
            },
    {
        match self.detected_region_index {
            Some(known_index) => {
                if known_index.0 != cell.region_index.0 {
                    return Err(
                        RegionIndexError::Inconsistent { known: known_index, given: cell.region_index },
                    );
                }
            },
            None => {
                self.detected_region_index = Some(cell.region_index);
            },
        }
        Ok(payload)
    }

    /// Records the region of an assigned cell and hands the cell back.
    pub fn detect_index_cell_payload(&mut self, cell: Cell) -> (r: Result<Cell, RegionIndexError>)
        ensures
            match old(self).detected() {
                Some(known) => if known == cell.region_index {
                    r == Ok::<Cell, RegionIndexError>(cell) && final(self).detected() == old(self).detected()
                } else {
                    r == Err::<Cell, RegionIndexError>(
                        RegionIndexError::Inconsistent { known, given: cell.region_index },
                    ) && final(self).detected() == old(self).detected()
                },
                None => r == Ok::<Cell, RegionIndexError>(cell) && final(self).detected() == Some(
                    cell.region_index,
                ),
            },
    {
        self.detect_index(cell, cell)
    }
}

impl Default for RegionLayouterHelper {
    fn default() -> (r: Self)
        ensures
            r.detected() is None,
    {
        Self::new()
    }
}

} // verus!

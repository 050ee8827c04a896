//! Support for regions: sets of regions that are lowered as a separate module.

pub mod helpers;
pub mod name;
pub mod trackers;

use vstd::prelude::*;
use crate::io::{CircuitIO, IOError, io_cell_of};
use crate::resolvers::Advice;
use crate::support::roles::{CellRole, Roles};
use crate::synthesis::regions::RegionIndex;
use crate::table::{Any, Cell};
use name::RegionName;
use trackers::RegionIndexTracker;

verus! {

/// Hints that a set of regions should be lowered as a separated module.
///
/// The backend does not guarantee that it will honor this hint but it may rely on it for
/// different reasons.
///
/// The hint requires annotations for advice cells that act as inputs and output of the region.
/// The backend may impose restrictions on these annotations. For instance, the Picus backend
/// requires that at least one cell is marked as output.
#[derive(Debug)]
pub struct IsolatedRegions<T> {
    io: CircuitIO<Advice>,
    tracker: T,
    name: RegionName,
}

impl<T: RegionIndexTracker> IsolatedRegions<T> {
    /// The cells annotated as inputs and outputs.
    pub closed spec fn spec_io(&self) -> CircuitIO<Advice> {
        self.io
    }

    /// The tracker of the regions of the set.
    pub closed spec fn spec_tracker(&self) -> T {
        self.tracker
    }

    /// The name of the set.
    pub closed spec fn spec_name(&self) -> RegionName {
        self.name
    }

    fn new(tracker: T) -> (r: Self)
        ensures
            r.spec_io().spec_inputs().len() == 0,
            r.spec_io().spec_outputs().len() == 0,
            r.spec_tracker() == tracker,
            r.spec_name().unassigned(),
    {
        IsolatedRegions { io: CircuitIO::empty(), tracker, name: RegionName::new() }
    }
}

/// Serves as a unique identifier of an isolation point. Two isolated region sets are
/// considered equal if they have the same isolation point; the layouter uses this point to group
/// together different executions over the same chip's logic, which informs the backend about
/// potential callsites to the isolated module.
pub trait IsolationPoint: core::hash::Hash {
}

/// Why a cell could not be annotated.
#[derive(Debug, Clone, Copy, PartialEq, Eq, Structural)]
pub enum IsolationError {
    /// A cell with the output role is not in one of the isolated regions; the region of the
    /// cell is given.
    OutputOutsideRegions(RegionIndex),
    /// The cell could not be recorded.
    IO(IOError),
}

/// Helper for constructing a set of isolated regions, meant to stand in place of the layouter
/// it wraps: the regions it assigns are tracked and given a name.
#[derive(Debug)]
pub struct IsolatedRegionsLayouter<'a, L, IP, T> {
    inner: &'a mut L,
    regions: IsolatedRegions<T>,
    point: IP,
    commited: bool,
}

impl<'a, L, IP, T: RegionIndexTracker> IsolatedRegionsLayouter<'a, L, IP, T> {
    /// The set of regions built so far.
    pub closed spec fn spec_regions(&self) -> IsolatedRegions<T> {
        self.regions
    }

    /// The isolation point of the set.
    pub closed spec fn spec_point(&self) -> IP {
        self.point
    }

    /// Whether the set was committed.
    pub closed spec fn spec_commited(&self) -> bool {
        self.commited
    }

    /// The layouter that this one wraps.
    pub closed spec fn spec_inner(&self) -> L {
        *self.inner
    }

    /// A layouter that wraps `inner`, with an empty set of regions tracked by `tracker`.
    pub fn new(inner: &'a mut L, tracker: T, point: IP) -> (r: Self)
        where IP: IsolationPoint,
        ensures
            r.spec_regions().spec_io().spec_inputs().len() == 0,
            r.spec_regions().spec_io().spec_outputs().len() == 0,
            r.spec_regions().spec_tracker() == tracker,
            r.spec_regions().spec_name().unassigned(),
            r.spec_point() == point,
            !r.spec_commited(),
            r.spec_inner() == *old(inner),
    {
        IsolatedRegionsLayouter {
            inner,
            regions: IsolatedRegions::new(tracker),
            point,
            commited: false,
        }
    }

    /// The layouter that this one wraps.
    pub fn inner(&mut self) -> (r: &mut L)
        ensures
            *r == old(self).spec_inner(),
            final(self).spec_inner() == *final(r),
            final(self).spec_regions() == old(self).spec_regions(),
            final(self).spec_point() == old(self).spec_point(),
            final(self).spec_commited() == old(self).spec_commited(),
    {
        self.inner
    }

    /// Names the set of regions with what `name` returns, if it has no name yet. Called when a
    /// region is assigned.
    pub fn name_regions<N: Fn() -> String>(&mut self, name: &N)
        requires
            name.requires(()),
        ensures
            old(self).spec_regions().spec_name().unassigned() ==> !final(self).spec_regions().spec_name().unassigned(),
            old(self).spec_regions().spec_name().unassigned() ==> !final(self).spec_regions().spec_name().assigned()
                && exists|s: String| name.ensures((), s) && s@ == final(self).spec_regions().spec_name().text(),
            !old(self).spec_regions().spec_name().unassigned() ==> final(self).spec_regions().spec_name().assigned()
                == old(self).spec_regions().spec_name().assigned() && final(self).spec_regions().spec_name().text()
                == old(self).spec_regions().spec_name().text(),
            final(self).spec_regions().spec_io() == old(self).spec_regions().spec_io(),
            final(self).spec_regions().spec_tracker() == old(self).spec_regions().spec_tracker(),
            final(self).spec_point() == old(self).spec_point(),
            final(self).spec_commited() == old(self).spec_commited(),
    {
        self.regions.name.auto(name);
    }

    /// Records the region that an assignment went to, as the region helper detected it; an
    /// assignment that assigned no cell records nothing.
    pub fn track_region(&mut self, index: Option<RegionIndex>)
        ensures
            index matches Some(i) ==> final(self).spec_regions().spec_tracker().tracks(i.0),
            forall|i: usize|
                old(self).spec_regions().spec_tracker().tracks(i) ==> final(self).spec_regions().spec_tracker().tracks(i),
            index is None ==> final(self).spec_regions().spec_tracker() == old(self).spec_regions().spec_tracker(),
            final(self).spec_regions().spec_io() == old(self).spec_regions().spec_io(),
            final(self).spec_regions().spec_name() == old(self).spec_regions().spec_name(),
            final(self).spec_point() == old(self).spec_point(),
            final(self).spec_commited() == old(self).spec_commited(),
    {
        if let Some(i) = index {
            self.regions.tracker.update(i);
        }
    }

    /// Annotates an advice cell with a certain role.
    ///
    /// If the cell is from one of the isolated regions it can have any role. The method will
    /// return an error if a cell is given an output role and is not from one of the isolated
    /// regions, even if it's the correct cell. For this reason it is recommended to annotate
    /// output cells after regions have been assigned.
    ///
    /// If the cell is from outside it can only have the input role and there has to be a
    /// transtive equality constraint between at least one cell in the region and the given
    /// cell. This requirement is checked during lowering since it cannot be checked here.
    ///
    /// If the conditions above are valid and the cell is going to be annotated, the method will
    /// return an error if the cell is not an advice cell. Roles other than input and output are
    /// ignored.
    pub fn annotate_cell(&mut self, cell: Cell, role: CellRole<Advice>) -> (r: Result<(), IsolationError>)
        ensures
            role.spec_role() == Roles::Intermediate ==> r is Ok && *final(self) == *old(self),
            role.spec_role() == Roles::Output && !old(self).spec_regions().spec_tracker().tracks(
                cell.region_index.0,
            ) ==> r == Err::<(), IsolationError>(IsolationError::OutputOutsideRegions(cell.region_index))
                && *final(self) == *old(self),
            (role.spec_role() == Roles::Input || role.spec_role() == Roles::Output
                && old(self).spec_regions().spec_tracker().tracks(cell.region_index.0))
                ==> (if cell.column.column_type == Any::Advice {
                r is Ok
            } else {
                r == Err::<(), IsolationError>(IsolationError::IO(IOError::NotAdvice))
            }),
            r is Err ==> *final(self) == *old(self),
            r is Ok && role.spec_role() == Roles::Input ==> final(self).spec_regions().spec_io().spec_inputs()
                == old(self).spec_regions().spec_io().spec_inputs().push(io_cell_of(cell))
                && final(self).spec_regions().spec_io().spec_outputs() == old(self).spec_regions().spec_io().spec_outputs(),
            r is Ok && role.spec_role() == Roles::Output ==> final(self).spec_regions().spec_io().spec_outputs()
                == old(self).spec_regions().spec_io().spec_outputs().push(io_cell_of(cell))
                && final(self).spec_regions().spec_io().spec_inputs() == old(self).spec_regions().spec_io().spec_inputs(),
            final(self).spec_regions().spec_tracker() == old(self).spec_regions().spec_tracker(),
            final(self).spec_regions().spec_name() == old(self).spec_regions().spec_name(),
            final(self).spec_point() == old(self).spec_point(),
            final(self).spec_commited() == old(self).spec_commited(),
    {
        match role.role() {
            Roles::Input => match self.regions.io.add(cell, role) {
                Ok(()) => Ok(()),
                Err(e) => Err(IsolationError::IO(e)),
            },
            Roles::Output => {
                if !self.regions.tracker.contains(cell.region_index) {
                    return Err(IsolationError::OutputOutsideRegions(cell.region_index));
                }
                match self.regions.io.add(cell, role) {
                    Ok(()) => Ok(()),
                    Err(e) => Err(IsolationError::IO(e)),
                }
            },
            Roles::Intermediate => Ok(()),
        }
    }
}

} // verus!

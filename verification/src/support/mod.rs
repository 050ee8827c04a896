//! Support for the layouters that synthesis runs: region names, the tracking of region
//! indices, and the roles of cells.

pub mod regions;
pub mod roles;

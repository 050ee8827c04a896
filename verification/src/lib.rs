//! Verified core of a Halo2 circuit frontend: the intermediate representation of circuits,
//! its constant folding and canonicalization, and the bookkeeping of regions, groups and
//! equality constraints gathered during synthesis.

pub mod felt;
pub mod func_io;
pub mod ir;
pub mod utils;
pub mod support;
pub mod synthesis;
pub mod poly;
pub mod resolvers;
pub mod table;
pub mod temps;
pub mod text;
pub mod io;
pub mod lookups;
pub mod mock;

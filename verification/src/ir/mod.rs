//! Intermediate representation of circuits.

pub mod aexpr;
pub mod compare;
pub mod bexpr;
pub mod canon;
pub mod semantics;
pub mod stmt;
pub mod equivalency;
pub mod groups;
pub mod lift;
pub mod lowering;
pub mod scoped;
pub mod generate;
pub mod ctx;

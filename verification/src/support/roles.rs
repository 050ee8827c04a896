//! Roles of the cells of a circuit: inputs, outputs and intermediate values.
use vstd::prelude::*;
use core::marker::PhantomData;
use crate::resolvers::{Advice, Instance};
use crate::table::{Any, ColumnType};

verus! {

/// The possible roles for a cell in the circuit.
#[derive(Debug, Copy, Clone, PartialEq, Eq, Structural)]
pub enum Roles {
    /// An input of the circuit.
    Input,
    /// An output of the circuit.
    Output,
    /// A value computed inside the circuit.
    Intermediate,
}

/// Column types whose cells can be inputs.
pub trait SupportsInput: ColumnType {
}

/// Column types whose cells can be outputs.
pub trait SupportsOutput: ColumnType {
}

/// Column types whose cells can be intermediate values.
pub trait SupportsIntermediate: ColumnType {
}

impl SupportsInput for Instance {
}

impl SupportsInput for Advice {
}

impl SupportsInput for Any {
}

impl SupportsOutput for Instance {
}

impl SupportsOutput for Advice {
}

impl SupportsOutput for Any {
}

impl SupportsIntermediate for Advice {
}

impl SupportsIntermediate for Any {
}

/// Denotes the intended role of a particular cell in the circuit.
/// When defining the following rules apply:
///  - Any instance cell marked with either Input or Output is
///    marked as a public input or output. The type system disallows marking an instance cell with
///    the intermediate role. An unmarked instance cell is defaulted to Input.
///  - Any advice cell marked as Input or Output is marked as a
///    private input or output. Any unmarked cell is defaulted to
///    Intermediate.
///  - Fixed cells cannot be marked with a role and the type system wont allow creating a role
///  for them.
#[derive(Debug)]
pub struct CellRole<C: ColumnType> {
    role: Roles,
    _marker: PhantomData<C>,
}

impl<C: ColumnType> CellRole<C> {
    /// The role.
    pub closed spec fn spec_role(&self) -> Roles {
        self.role
    }

    fn new(role: Roles) -> (r: Self)
        ensures
            r.spec_role() == role,
    {
        CellRole { role, _marker: PhantomData }
    }

    /// The role.
    pub fn role(&self) -> (r: Roles)
        ensures
            r == self.spec_role(),
    {
        self.role
    }

    /// Whether the role is the given one.
    pub fn is(&self, other: Roles) -> (r: bool)
        ensures
            r == (self.spec_role() == other),
    {
        self.role == other
    }

    /// Pairs each of the given cells with this role.
    pub fn into_cells(self, r: Vec<usize>) -> (out: Vec<(usize, Self)>)
        ensures
            out@.len() == r@.len(),
            forall|i: int| 0 <= i < r@.len() ==> out@[i].0 == r@[i] && out@[i].1.spec_role() == self.spec_role(),
    {
        let mut out: Vec<(usize, Self)> = Vec::new();
        let mut i: usize = 0;
        let role = self.role;
        while i < r.len()
            invariant
                role == self.spec_role(),
                i <= r@.len(),
                out@.len() == i,
                forall|k: int| #![trigger out@[k]] 0 <= k < i ==> out@[k].0 == r@[k] && out@[k].1.spec_role() == role,
            decreases r@.len() - i,
        {
            let c = CellRole::new(role);
            let ghost prev = out@;
            out.push((r[i], c));
            assert(out@ == prev.push((r@[i as int], c)));
            assert(forall|k: int| 0 <= k < i ==> out@[k] == prev[k]);
            assert(out@[i as int].1.spec_role() == role);
            assert(out@[i as int].0 == r@[i as int]);
            i = i + 1;
        }
        out
    }
}

impl<C: SupportsInput> CellRole<C> {
    /// Creates an input role.
    pub fn input() -> (r: Self)
        ensures
            r.spec_role() == Roles::Input,
    {
        Self::new(Roles::Input)
    }

    /// Creates a list of cells with the input role.
    pub fn inputs(r: Vec<usize>) -> (out: Vec<(usize, Self)>)
        ensures
            out@.len() == r@.len(),
            forall|i: int| 0 <= i < r@.len() ==> out@[i].0 == r@[i] && out@[i].1.spec_role() == Roles::Input,
    {
        Self::input().into_cells(r)
    }
}

impl<C: SupportsOutput> CellRole<C> {
    /// Creates an output role.
    pub fn output() -> (r: Self)
        ensures
            r.spec_role() == Roles::Output,
    {
        Self::new(Roles::Output)
    }

    /// Creates a list of cells with the output role.
    pub fn outputs(r: Vec<usize>) -> (out: Vec<(usize, Self)>)
        ensures
            out@.len() == r@.len(),
            forall|i: int| 0 <= i < r@.len() ==> out@[i].0 == r@[i] && out@[i].1.spec_role() == Roles::Output,
    {
        Self::output().into_cells(r)
    }
}

impl<C: SupportsIntermediate> CellRole<C> {
    /// Creates an intermediate role.
    pub fn intermediate() -> (r: Self)
        ensures
            r.spec_role() == Roles::Intermediate,
    {
        Self::new(Roles::Intermediate)
    }

    /// Creates a list of cells with the intermediate role.
    pub fn intermediates(r: Vec<usize>) -> (out: Vec<(usize, Self)>)
        ensures
            out@.len() == r@.len(),
            forall|i: int| 0 <= i < r@.len() ==> out@[i].0 == r@[i] && out@[i].1.spec_role()
                == Roles::Intermediate,
    {
        Self::intermediate().into_cells(r)
    }
}

impl CellRole<Advice> {
    /// The default role of advice cells: intermediate.
    pub fn default_advice() -> (r: Self)
        ensures
            r.spec_role() == Roles::Intermediate,
    {
        Self::intermediate()
    }
}

impl CellRole<Instance> {
    /// The default role of instance cells: input.
    pub fn default_instance() -> (r: Self)
        ensures
            r.spec_role() == Roles::Input,
    {
        Self::input()
    }
}

impl CellRole<Any> {
    /// The role for an instance cell; instance cells cannot be intermediate values.
    pub fn to_instance(self) -> (r: Result<CellRole<Instance>, RoleError<Instance>>)
        ensures
            self.spec_role() != Roles::Intermediate ==> (r matches Ok(c) && c.spec_role() == self.spec_role()),
            self.spec_role() == Roles::Intermediate ==> (r matches Err(e) && e.spec_role() == Roles::Intermediate),
    {
        match self.role {
            Roles::Input => Ok(CellRole::input()),
            Roles::Output => Ok(CellRole::output()),
            _ => Err(RoleError::unsupported(self.role)),
        }
    }

    /// The role for an advice cell; every role is allowed.
    pub fn to_advice(self) -> (r: Result<CellRole<Advice>, RoleError<Advice>>)
        ensures
            r matches Ok(c) && c.spec_role() == self.spec_role(),
    {
        Ok(CellRole::new(self.role))
    }
}

/// A role that a column type does not allow.
#[derive(Debug)]
pub struct UnsupportedRoleError<C> {
    role: Roles,
    _marker: PhantomData<C>,
}

/// Error related to cell roles.
#[derive(Debug)]
pub enum RoleError<C> {
    /// The role is not allowed for the column type.
    Unsupported(UnsupportedRoleError<C>),
}

impl<C> RoleError<C> {
    /// The role that was refused.
    pub closed spec fn spec_role(&self) -> Roles {
        match self {
            RoleError::Unsupported(u) => u.role,
        }
    }

    /// The error for a role that the column type does not allow.
    pub fn unsupported(role: Roles) -> (r: Self)
        ensures
            r.spec_role() == role,
    {
        RoleError::Unsupported(UnsupportedRoleError { role, _marker: PhantomData })
    }

    /// The role that was refused.
    pub fn role(&self) -> (r: Roles)
        ensures
            r == self.spec_role(),
    {
        match self {
            RoleError::Unsupported(u) => u.role,
        }
    }
}

} // verus!

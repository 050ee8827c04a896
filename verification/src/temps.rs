//! Temporaries created during IR generation.
use vstd::prelude::*;
use crate::func_io::FuncIO;
use crate::ir::aexpr::IRAexpr;

verus! {

/// A temporary variable.
#[derive(Debug, Copy, Clone, PartialEq, Eq, Structural, Hash)]
pub struct Temp(pub usize);

impl Temp {
    /// The number of the temporary.
    pub fn get(&self) -> (r: usize)
        ensures
            r == self.0,
    {
        self.0
    }

    /// The variable of the temporary.
    pub fn to_func_io(self) -> (r: FuncIO)
        ensures
            r == FuncIO::Temp(self.0),
    {
        FuncIO::Temp(self.0)
    }
}

/// Wrapper that allows adding temporaries in expressions that don't directly support them.
#[derive(Debug)]
pub enum ExprOrTemp<E> {
    /// Temporary variable.
    Temp(Temp),
    /// Expression.
    Expr(E),
}

impl<E> ExprOrTemp<E> {
    /// Maps the expression; a temporary is kept.
    pub fn map<O, F: Fn(E) -> O>(self, f: F) -> (r: ExprOrTemp<O>)
        requires
            forall|e: E| f.requires((e,)),
        ensures
            self matches ExprOrTemp::Temp(t) ==> r == ExprOrTemp::<O>::Temp(t),
            self matches ExprOrTemp::Expr(e) ==> r matches ExprOrTemp::Expr(o) && f.ensures((e,), o),
    {
        match self {
            ExprOrTemp::Temp(temp) => ExprOrTemp::Temp(temp),
            ExprOrTemp::Expr(e) => ExprOrTemp::Expr(f(e)),
        }
    }
}

impl ExprOrTemp<IRAexpr> {
    /// The arithmetic expression: a temporary becomes its variable.
    pub fn into_aexpr(self) -> (r: IRAexpr)
        ensures
            self matches ExprOrTemp::Temp(t) ==> r == IRAexpr::IO(FuncIO::Temp(t.0)),
            self matches ExprOrTemp::Expr(e) ==> r == e,
    {
        match self {
            ExprOrTemp::Temp(t) => IRAexpr::IO(t.to_func_io()),
            ExprOrTemp::Expr(e) => e,
        }
    }
}

/// Generator of temporary variables, numbered from zero.
#[derive(Debug)]
pub struct Temps {
    count: usize,
}

impl Temps {
    /// How many temporaries were generated.
    pub closed spec fn generated(&self) -> nat {
        self.count as nat
    }

    /// A generator that has generated nothing.
    pub fn new() -> (r: Self)
        ensures
            r.generated() == 0,
    {
        Temps { count: 0 }
    }

    /// The next temporary: the one numbered by how many were generated before it.
    pub fn next(&mut self) -> (r: Temp)
        requires
            old(self).generated() < usize::MAX,
        ensures
            r.0 == old(self).generated(),
            final(self).generated() == old(self).generated() + 1,
    {
        let id = self.count;
        self.count = self.count + 1;
        Temp(id)
    }
}

} // verus!

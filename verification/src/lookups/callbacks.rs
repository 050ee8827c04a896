//! Structs for handling lookups from the client side.
use vstd::prelude::*;
use crate::ir::stmt::{IRStmt, StmtSeq};
use crate::temps::{ExprOrTemp, Temps};
use super::{Lookup, LookupError};
use super::table::LookupTableGenerator;

verus! {

/// The sizes of a run over the lookups: one borrow of the temporaries per call, and no more
/// calls than lookups or tables.
pub open spec fn lookup_calls_fit<F, E>(
    lookups: Seq<Lookup<E>>,
    tables: Seq<&dyn LookupTableGenerator<F>>,
    ms: Seq<&mut Temps>,
    rs: Seq<Result<IRStmt<ExprOrTemp<E>>, LookupError>>,
) -> bool {
    &&& ms.len() == rs.len()
    &&& rs.len() <= lookups.len()
    &&& rs.len() <= tables.len()
}

/// The statements of the successful calls.
pub open spec fn lookup_stmts<E>(rs: Seq<Result<IRStmt<ExprOrTemp<E>>, LookupError>>) -> Seq<IRStmt<ExprOrTemp<E>>> {
    rs.map_values(|x: Result<IRStmt<ExprOrTemp<E>>, LookupError>| x->Ok_0)
}

/// What a run over the lookups returns from the results of its calls: the error of the last
/// call if it failed (every earlier call having succeeded), or else, once a call was made on
/// each pair of a lookup and a table, the sequence of their statements.
pub open spec fn lookups_outcome<E>(
    rs: Seq<Result<IRStmt<ExprOrTemp<E>>, LookupError>>,
    n: int,
    r: Result<IRStmt<ExprOrTemp<E>>, LookupError>,
) -> bool {
    &&& forall|k: int| 0 <= k < rs.len() - 1 ==> (#[trigger] rs[k]) is Ok
    &&& if rs.len() > 0 && rs.last() is Err {
        r == Err::<IRStmt<ExprOrTemp<E>>, LookupError>(rs.last()->Err_0)
    } else {
        &&& rs.len() == n
        &&& r matches Ok(IRStmt::Sequence(q)) && q.0@ == lookup_stmts(rs)
    }
}

/// Callback trait for deferring to the client how to handle the logic of a lookup.
pub trait LookupCallbacks<F, E> {
    /// Called on the list of lookups the circuit defines, each with the generator of its
    /// table.
    ///
    /// While generating IR in a circuit with multiple lookups two lookups may be related: the
    /// circuit could call the same lookup in the same row for two values, and a client may
    /// want to handle such lookups together. This method sees all the lookups at once. By
    /// default it calls [`LookupCallbacks::on_lookup`] on each lookup with its table, in
    /// order, up to the shorter of the two lists, and gathers the statements in a sequence;
    /// the first error stops it.
    fn on_lookups(&self, lookups: &[Lookup<E>], tables: &[&dyn LookupTableGenerator<F>], temps: &mut Temps) -> (r: Result<IRStmt<ExprOrTemp<E>>, LookupError>)
        default_ensures
            exists|ms: Seq<&mut Temps>, rs: Seq<Result<IRStmt<ExprOrTemp<E>>, LookupError>>|
                #[trigger] lookup_calls_fit(lookups@, tables@, ms, rs) && (forall|k: int|
                #![trigger rs[k]] 0 <= k < rs.len() ==> call_ensures(
                    Self::on_lookup,
                    (self, &lookups@[k], tables@[k], ms[k]),
                    rs[k],
                )) && lookups_outcome(
                    rs,
                    if lookups@.len() < tables@.len() { lookups@.len() as int } else { tables@.len() as int },
                    r,
                ),
    {
        let mut out: Vec<IRStmt<ExprOrTemp<E>>> = Vec::new();
        let ghost mut ms: Seq<&mut Temps> = Seq::empty();
        let ghost mut rs: Seq<Result<IRStmt<ExprOrTemp<E>>, LookupError>> = Seq::empty();
        let mut i: usize = 0;
        while i < lookups.len() && i < tables.len()
            invariant
                i <= lookups@.len(),
                i <= tables@.len(),
                rs.len() == i,
                ms.len() == i,
                lookup_calls_fit(lookups@, tables@, ms, rs),
                forall|k: int| #![trigger rs[k]] 0 <= k < rs.len() ==> call_ensures(
                    Self::on_lookup,
                    (self, &lookups@[k], tables@[k], ms[k]),
                    rs[k],
                ),
                forall|k: int| 0 <= k < rs.len() ==> (#[trigger] rs[k]) is Ok,
                out@ == lookup_stmts(rs),
            decreases lookups@.len() - i,
        {
            let ghost before = *temps;
            let res = self.on_lookup(&lookups[i], tables[i], temps);
            assert(exists|m: &mut Temps| mut_ref_current(m) == before
                && call_ensures(Self::on_lookup, (self, &lookups@[i as int], tables@[i as int], m), res));
            let ghost rs0 = rs;
            proof {
                let m = choose|m: &mut Temps| mut_ref_current(m) == before
                    && call_ensures(Self::on_lookup, (self, &lookups@[i as int], tables@[i as int], m), res);
                ms = ms.push(m);
                rs = rs.push(res);
            }
            assert(lookup_calls_fit(lookups@, tables@, ms, rs));
            assert(forall|k: int| #![trigger rs[k]] 0 <= k < rs.len() ==> call_ensures(
                Self::on_lookup,
                (self, &lookups@[k], tables@[k], ms[k]),
                rs[k],
            ));
            assert(forall|k: int| #![trigger rs[k]] 0 <= k < rs.len() - 1 ==> rs[k] == rs0[k]);
            match res {
                Ok(s) => {
                    out.push(s);
                    proof {
                        assert(out@ =~= lookup_stmts(rs));
                    }
                },
                Err(e) => {
                    return Err(e);
                },
            }
            i = i + 1;
        }
        let stmt = IRStmt::seq(out);
        proof {
            if rs.len() > 0 {
                assert(rs[rs.len() - 1] is Ok);
            }
        }
        Ok(stmt)
    }

    /// Called on each lookup the circuit defines, with the generator of its table.
    fn on_lookup(&self, lookup: &Lookup<E>, table: &dyn LookupTableGenerator<F>, temps: &mut Temps) -> Result<IRStmt<ExprOrTemp<E>>, LookupError>;
}

} // verus!

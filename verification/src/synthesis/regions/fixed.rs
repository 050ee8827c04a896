//! The values assigned to fixed cells during synthesis.
use vstd::prelude::*;
use std::collections::{HashMap, HashSet};
use vstd::std_specs::iter::IteratorSpec;
use crate::felt::Felt;
use crate::poly::Query;
use crate::resolvers::{Fixed, FixedQueryResolver, ResolveError};
use crate::table::Column;

verus! {

broadcast use vstd::std_specs::hash::group_hash_axioms;

/// Model of a value that may be unknown.
pub open spec fn value_view(v: Option<Felt>) -> Option<nat> {
    match v {
        Some(f) => Some(f@),
        None => None,
    }
}

/// Model of the fills of a column: each start row with the value of the rows from it on.
pub open spec fn fills_view(fills: Seq<(usize, Option<Felt>)>) -> Seq<(usize, Option<nat>)> {
    Seq::new(fills.len(), |i: int| (fills[i].0, value_view(fills[i].1)))
}

/// The value that the latest fill starting at or before the row gives it, if any.
pub open spec fn last_fill(fills: Seq<(usize, Option<nat>)>, row: usize) -> Option<Option<nat>>
    decreases fills.len(),
{
    if fills.len() == 0 {
        None
    } else if fills.last().0 <= row {
        Some(fills.last().1)
    } else {
        last_fill(fills.drop_last(), row)
    }
}

/// Why a selection of the fixed data failed.
#[derive(Debug, Clone, Copy, PartialEq, Eq, Structural)]
pub enum FixedDataError {
    /// Some of the required columns have no data.
    MissingColumns,
}

/// The values assigned to fixed cells: single cells, and fills of a column from a row on with
/// one value. Fills of a column are kept in the order they were made, so when resolving a row
/// the latest that covers it gives the value.
#[derive(Debug)]
pub struct FixedData {
    /// Constant values assigned to fixed cells, by column and then row.
    fixed: HashMap<usize, HashMap<usize, Option<Felt>>>,
    /// The columns for which there is data.
    columns: HashSet<usize>,
    /// Fills of each column, in chronological order.
    blanket_fills: HashMap<usize, Vec<(usize, Option<Felt>)>>,
}

impl FixedData {
    /// The columns for which there is data.
    pub closed spec fn spec_columns(&self) -> Set<usize> {
        self.columns@
    }

    /// The value assigned to the cell itself, if one was.
    pub closed spec fn assigned(&self, col: usize, row: usize) -> Option<Option<nat>> {
        if self.fixed@.contains_key(col) && self.fixed@[col]@.contains_key(row) {
            Some(value_view(self.fixed@[col]@[row]))
        } else {
            None
        }
    }

    /// The fills of the column, oldest first.
    pub closed spec fn fills(&self, col: usize) -> Seq<(usize, Option<nat>)> {
        if self.blanket_fills@.contains_key(col) {
            fills_view(self.blanket_fills@[col]@)
        } else {
            Seq::empty()
        }
    }

    /// The value of a fixed cell: the one assigned to it, else the one of the latest fill
    /// that covers it, else zero.
    pub open spec fn resolved(&self, col: usize, row: usize) -> Option<nat> {
        match self.assigned(col, row) {
            Some(v) => v,
            None => match last_fill(self.fills(col), row) {
                Some(v) => v,
                None => Some(0),
            },
        }
    }

    /// No data.
    pub fn new() -> (r: Self)
        ensures
            r.spec_columns() == Set::<usize>::empty(),
            forall|c: usize, row: usize| r.assigned(c, row) is None,
            forall|c: usize| r.fills(c).len() == 0,
    {
        FixedData { fixed: HashMap::new(), columns: HashSet::new(), blanket_fills: HashMap::new() }
    }

    /// Fills the column with the value from the row on.
    pub fn blanket_fill(&mut self, column: Column<Fixed>, row: usize, value: Option<Felt>)
        ensures
            fill_step(*old(self), *final(self), column.index, row, value_view(value)),
    {
        let col = column.index;
        self.columns.insert(col);
        let mut fills = match self.blanket_fills.remove(&col) {
            Some(v) => v,
            None => Vec::new(),
        };
        let ghost before = fills@;
        fills.push((row, value));
        proof {
            assert(fills_view(fills@) =~= fills_view(before).push((row, value_view(value))));
        }
        self.blanket_fills.insert(col, fills);
        proof {
            assert forall|c: usize| c != col implies self.fills(c) == old(self).fills(c) by {
                assert(self.blanket_fills@.contains_key(c) == old(self).blanket_fills@.contains_key(c));
            }
            assert forall|c: usize, r: usize| self.assigned(c, r) == old(self).assigned(c, r) by {}
            assert(self.spec_columns() == old(self).spec_columns().insert(col));
            assert(self.fills(col) == old(self).fills(col).push((row, value_view(value))));
        }
    }

    /// Assigns the value to the cell of the column at the row.
    pub fn assign_fixed(&mut self, fixed: Column<Fixed>, row: usize, value: Option<Felt>)
        ensures
            assign_step(*old(self), *final(self), fixed.index, row, value_view(value)),
    {
        let col = fixed.index;
        self.columns.insert(col);
        let ghost old_inner: Map<usize, Option<Felt>> = if old(self).fixed@.contains_key(col) {
            old(self).fixed@[col]@
        } else {
            Map::empty()
        };
        let mut values = match self.fixed.remove(&col) {
            Some(v) => v,
            None => HashMap::new(),
        };
        assert(values@ == old_inner);
        values.insert(row, value);
        self.fixed.insert(col, values);
        proof {
            assert(self.fixed@[col]@ == old_inner.insert(row, value));
            assert forall|c: usize, r: usize| !(c == col && r == row) implies self.assigned(c, r) == old(self).assigned(c, r) by {
                if c == col {
                    assert(self.fixed@[c]@.contains_key(r) == old_inner.contains_key(r));
                } else {
                    assert(self.fixed@.contains_key(c) == old(self).fixed@.contains_key(c));
                }
            }
        }
    }
}

/// `b` is `a` with the column filled with the value from the row on: the fill is the
/// latest of the column, and nothing else changes but the column being counted.
pub open spec fn fill_step(a: FixedData, b: FixedData, col: usize, row: usize, v: Option<nat>) -> bool {
    &&& b.spec_columns() == a.spec_columns().insert(col)
    &&& b.fills(col) == a.fills(col).push((row, v))
    &&& forall|c: usize| c != col ==> b.fills(c) == a.fills(c)
    &&& forall|c: usize, r: usize| b.assigned(c, r) == a.assigned(c, r)
}

/// `b` is `a` with the value assigned to the cell: nothing else changes but the column being
/// counted.
pub open spec fn assign_step(a: FixedData, b: FixedData, col: usize, row: usize, v: Option<nat>) -> bool {
    &&& b.spec_columns() == a.spec_columns().insert(col)
    &&& b.assigned(col, row) == Some(v)
    &&& forall|c: usize, r: usize| !(c == col && r == row) ==> b.assigned(c, r) == a.assigned(c, r)
    &&& forall|c: usize| b.fills(c) == a.fills(c)
}

/// The value assigned to a cell is its value, whatever fills come after.
pub proof fn law_assigned_value_wins(a: FixedData, b: FixedData, c: FixedData, col: usize, row: usize, v: Option<nat>, fcol: usize, frow: usize, fv: Option<nat>)
    requires
        assign_step(a, b, col, row, v),
        fill_step(b, c, fcol, frow, fv),
    ensures
        b.resolved(col, row) == v,
        c.resolved(col, row) == v,
{
}

/// A cell with no value of its own takes the value of the latest fill that covers it: right
/// after a fill from a row at or before it, that fill's value.
pub proof fn law_latest_fill_wins(a: FixedData, b: FixedData, col: usize, frow: usize, fv: Option<nat>, row: usize)
    requires
        fill_step(a, b, col, frow, fv),
        a.assigned(col, row) is None,
        frow <= row,
    ensures
        b.resolved(col, row) == fv,
{
    assert(b.fills(col).last() == (frow, fv));
}

/// A fill from a row after the cell leaves its value as it was.
pub proof fn law_later_fill_leaves_cell(a: FixedData, b: FixedData, col: usize, frow: usize, fv: Option<nat>, row: usize)
    requires
        fill_step(a, b, col, frow, fv),
        row < frow,
    ensures
        b.resolved(col, row) == a.resolved(col, row),
{
    assert(b.fills(col).drop_last() =~= a.fills(col));
}

/// `b` is `a` after the call: a fill of the column (first element `true`) or an assignment to
/// the cell, at the row, with the value.
pub open spec fn call_step(a: FixedData, b: FixedData, call: (bool, usize, usize, Option<nat>)) -> bool {
    if call.0 {
        fill_step(a, b, call.1, call.2, call.3)
    } else {
        assign_step(a, b, call.1, call.2, call.3)
    }
}

/// The value assigned to the cell after the calls: that of the last assignment to it, or else
/// the one it had before.
pub open spec fn run_assigned(before: Option<Option<nat>>, calls: Seq<(bool, usize, usize, Option<nat>)>, col: usize, row: usize) -> Option<Option<nat>>
    decreases calls.len(),
{
    if calls.len() == 0 {
        before
    } else if !calls.last().0 && calls.last().1 == col && calls.last().2 == row {
        Some(calls.last().3)
    } else {
        run_assigned(before, calls.drop_last(), col, row)
    }
}

/// The fills of the column after the calls: those it had, then those of the calls, in order.
pub open spec fn run_fills(before: Seq<(usize, Option<nat>)>, calls: Seq<(bool, usize, usize, Option<nat>)>, col: usize) -> Seq<(usize, Option<nat>)>
    decreases calls.len(),
{
    if calls.len() == 0 {
        before
    } else if calls.last().0 && calls.last().1 == col {
        run_fills(before, calls.drop_last(), col).push((calls.last().2, calls.last().3))
    } else {
        run_fills(before, calls.drop_last(), col)
    }
}

/// After a run of assignments and fills, the value of a cell is that of the last assignment to
/// it, else that of the latest fill of its column that starts at or before its row, else zero;
/// fills and assignments made before the run count as made first.
pub proof fn law_fixed_run(states: Seq<FixedData>, calls: Seq<(bool, usize, usize, Option<nat>)>)
    requires
        states.len() == calls.len() + 1,
        forall|i: int| 0 <= i < calls.len() ==> call_step(states[i], states[i + 1], #[trigger] calls[i]),
    ensures
        forall|col: usize, row: usize| #[trigger] states.last().assigned(col, row) == run_assigned(states[0].assigned(col, row), calls, col, row),
        forall|col: usize| #[trigger] states.last().fills(col) == run_fills(states[0].fills(col), calls, col),
        forall|col: usize, row: usize| #[trigger] states.last().resolved(col, row) == match run_assigned(states[0].assigned(col, row), calls, col, row) {
            Some(v) => v,
            None => match last_fill(run_fills(states[0].fills(col), calls, col), row) {
                Some(v) => v,
                None => Some(0),
            },
        },
    decreases calls.len(),
{
    if calls.len() > 0 {
        let n = calls.len() - 1;
        let ps = states.drop_last();
        let pc = calls.drop_last();
        assert forall|i: int| 0 <= i < pc.len() implies call_step(ps[i], ps[i + 1], #[trigger] pc[i]) by {
            assert(pc[i] == calls[i]);
            assert(call_step(states[i], states[i + 1], calls[i]));
        }
        law_fixed_run(ps, pc);
        assert(ps.last() == states[n]);
        assert(call_step(states[n], states[n + 1], calls[n]));
        assert forall|col: usize, row: usize| #[trigger] states.last().assigned(col, row) == run_assigned(states[0].assigned(col, row), calls, col, row) by {
            assert(states[n].assigned(col, row) == run_assigned(ps[0].assigned(col, row), pc, col, row));
        }
        assert forall|col: usize| #[trigger] states.last().fills(col) == run_fills(states[0].fills(col), calls, col) by {
            assert(states[n].fills(col) == run_fills(ps[0].fills(col), pc, col));
        }
    }
}

/// A copy of a value.
fn copy_value(v: &Option<Felt>) -> (r: Option<Felt>)
    ensures
        value_view(r) == value_view(*v),
{
    match v {
        Some(f) => Some(f.duplicate()),
        None => None,
    }
}

/// A copy of the fills of a column.
fn copy_fills(fills: &Vec<(usize, Option<Felt>)>) -> (r: Vec<(usize, Option<Felt>)>)
    ensures
        fills_view(r@) == fills_view(fills@),
{
    let mut out: Vec<(usize, Option<Felt>)> = Vec::new();
    let mut i: usize = 0;
    while i < fills.len()
        invariant
            i <= fills@.len(),
            fills_view(out@) =~= fills_view(fills@.take(i as int)),
        decreases fills@.len() - i,
    {
        let ghost prev = out@;
        let start = fills[i].0;
        let value = copy_value(&fills[i].1);
        out.push((start, value));
        i = i + 1;
        proof {
            assert(fills_view(prev).len() == prev.len());
            assert(fills_view(fills@.take(i - 1)).len() == i - 1);
            assert forall|j: int| 0 <= j < i implies #[trigger] fills_view(out@)[j] == fills_view(fills@.take(i as int))[j] by {
                if j < i - 1 {
                    assert(fills_view(prev)[j] == fills_view(fills@.take(i - 1))[j]);
                    assert(out@[j] == prev[j]);
                    assert(fills@.take(i as int)[j] == fills@.take(i - 1)[j]);
                }
            }
            assert(fills_view(out@) =~= fills_view(fills@.take(i as int)));
        }
    }
    proof {
        assert(fills@.take(i as int) =~= fills@);
    }
    out
}

impl FixedData {
    /// The value of the latest fill of the column that covers the row, if any.
    fn resolve_from_blanket_fills(&self, column: usize, row: usize) -> (r: Option<Option<Felt>>)
        ensures
            match r {
                Some(v) => last_fill(self.fills(column), row) == Some(value_view(v)),
                None => last_fill(self.fills(column), row) is None,
            },
    {
        match self.blanket_fills.get(&column) {
            None => None,
            Some(fills) => {
                let ghost fv = fills_view(fills@);
                assert(fv == self.fills(column));
                let mut i: usize = fills.len();
                assert(fv.take(i as int) =~= fv);
                while i > 0
                    invariant
                        i <= fills@.len(),
                        fv == fills_view(fills@),
                        fv == self.fills(column),
                        last_fill(fv, row) == last_fill(fv.take(i as int), row),
                    decreases i,
                {
                    proof {
                        assert(fv.take(i as int).drop_last() =~= fv.take(i - 1));
                    }
                    if fills[i - 1].0 <= row {
                        let v = copy_value(&fills[i - 1].1);
                        assert(fv.take(i as int).last() == fv[i - 1]);
                        assert(fv[i - 1] == (fills@[i - 1].0, value_view(fills@[i - 1].1)));
                        assert(last_fill(fv.take(i as int), row) == Some(fv[i - 1].1));
                        return Some(v);
                    }
                    i = i - 1;
                }
                None
            },
        }
    }

    /// The value of a fixed cell, as [`FixedData::resolved`] says.
    pub fn resolve_fixed(&self, column: usize, row: usize) -> (r: Option<Felt>)
        ensures
            value_view(r) == self.resolved(column, row),
    {
        match self.fixed.get(&column) {
            Some(cells) => match cells.get(&row) {
                Some(v) => {
                    return copy_value(v);
                },
                None => {},
            },
            None => {},
        }
        match self.resolve_from_blanket_fills(column, row) {
            Some(v) => v,
            None => Some(Felt::zero()),
        }
    }
}

impl FixedQueryResolver for FixedData {
    /// The value of the cell, as [`FixedData::resolved`] says; an unknown value is an error.
    open spec fn fixed_value(&self, column: usize, row: usize) -> Result<nat, ResolveError> {
        match self.resolved(column, row) {
            Some(v) => Ok(v),
            None => Err(ResolveError::UnknownFixedValue),
        }
    }

    fn resolve_query(&self, query: &Query, row: usize) -> (r: Result<Felt, ResolveError>) {
        match self.resolve_fixed(query.column_index, row) {
            Some(f) => Ok(f),
            None => Err(ResolveError::UnknownFixedValue),
        }
    }
}

impl FixedData {
    /// The data of the given columns only, each with the same cells and fills; an error if some
    /// of the columns have no data.
    pub fn subset(&self, columns: &HashSet<usize>) -> (r: Result<FixedData, FixedDataError>)
        ensures
            r is Err <==> !columns@.subset_of(self.spec_columns()),
            r matches Ok(d) ==> {
                &&& d.spec_columns() == columns@
                &&& forall|c: usize, row: usize| #[trigger] d.assigned(c, row)
                    == if columns@.contains(c) { self.assigned(c, row) } else { None }
                &&& forall|c: usize| #[trigger] d.fills(c)
                    == if columns@.contains(c) { self.fills(c) } else { Seq::empty() }
            },
    {
        let mut selected = FixedData::new();
        let ghost keys = vstd::std_specs::hash::spec_hash_keys_iter(columns).remaining();
        let ghost mut n: int = 0;
        for c in it: columns.iter()
            invariant
                it.seq() == keys,
                n == it.index(),
                keys == vstd::std_specs::hash::spec_hash_keys_iter(columns).remaining(),
                forall|x: usize| #[trigger] selected.spec_columns().contains(x) <==> exists|j: int| 0 <= j < n && *keys[j] == x,
                selected.spec_columns().subset_of(self.spec_columns()),
                forall|x: usize, row: usize| #[trigger] selected.assigned(x, row)
                    == if selected.spec_columns().contains(x) { self.assigned(x, row) } else { None },
                forall|x: usize| #[trigger] selected.fills(x)
                    == if selected.spec_columns().contains(x) { self.fills(x) } else { Seq::empty() },
        {
            let col = *c;
            if !self.columns.contains(&col) {
                proof {
                    assert(keys.unref().to_set() == columns@);
                    assert(keys.unref()[n] == col);
                    assert(columns@.contains(col));
                }
                return Err(FixedDataError::MissingColumns);
            }
            let ghost before = selected;
            selected.columns.insert(col);
            match self.blanket_fills.get(&col) {
                Some(fill) => {
                    let copy = copy_fills(fill);
                    selected.blanket_fills.insert(col, copy);
                },
                None => {
                    assert(before.fills(col) == self.fills(col));
                },
            }
            assert(selected.fills(col) == self.fills(col));
            match self.fixed.get(&col) {
                Some(values) => {
                    let copy = values.clone();
                    selected.fixed.insert(col, copy);
                },
                None => {
                    assert forall|row: usize| before.assigned(col, row) == self.assigned(col, row) by {}
                },
            }
            assert forall|row: usize| selected.assigned(col, row) == self.assigned(col, row) by {}
            proof {
                assert forall|x: usize| #[trigger] selected.fills(x)
                    == if selected.spec_columns().contains(x) { self.fills(x) } else { Seq::empty() } by {
                    if x != col {
                        assert(selected.blanket_fills@.contains_key(x) == before.blanket_fills@.contains_key(x));
                        assert(selected.fills(x) == before.fills(x));
                        assert(selected.spec_columns().contains(x) == before.spec_columns().contains(x));
                    } else {
                        assert(selected.fills(x) == self.fills(x));
                        assert(selected.spec_columns().contains(x));
                    }
                }
                assert forall|x: usize, row: usize| #[trigger] selected.assigned(x, row)
                    == if selected.spec_columns().contains(x) { self.assigned(x, row) } else { None } by {
                    if x != col {
                        assert(selected.fixed@.contains_key(x) == before.fixed@.contains_key(x));
                        assert(selected.assigned(x, row) == before.assigned(x, row));
                        assert(selected.spec_columns().contains(x) == before.spec_columns().contains(x));
                    } else {
                        assert(selected.assigned(x, row) == self.assigned(x, row));
                        assert(selected.spec_columns().contains(x));
                    }
                }
                n = n + 1;
                assert forall|x: usize| #[trigger] selected.spec_columns().contains(x) <==> exists|j: int| 0 <= j < n && *keys[j] == x by {
                    if x == col {
                        assert(*keys[n - 1] == x);
                    }
                }
            }
        }
        proof {
            assert(n == keys.len());
            assert(keys.unref().to_set() == columns@);
            assert forall|x: usize| selected.spec_columns().contains(x) <==> columns@.contains(x) by {
                if columns@.contains(x) {
                    assert(keys.unref().contains(x));
                    let j = keys.unref().index_of(x);
                    assert(*keys[j] == x);
                }
                if selected.spec_columns().contains(x) {
                    let j = choose|j: int| 0 <= j < n && *keys[j] == x;
                    assert(keys.unref()[j] == x);
                }
            }
            assert(selected.spec_columns() =~= columns@);
        }
        Ok(selected)
    }
}

impl Default for FixedData {
    fn default() -> (r: FixedData)
        ensures
            r.spec_columns() == Set::<usize>::empty(),
            forall|c: usize, row: usize| r.assigned(c, row) is None,
            forall|c: usize| r.fills(c).len() == 0,
    {
        FixedData::new()
    }
}

impl FixedData {
    /// The values assigned to single cells, by column and row, and the fills of each column.
    pub fn take(self) -> (r: (HashMap<usize, HashMap<usize, Option<Felt>>>, HashMap<usize, Vec<(usize, Option<Felt>)>>))
        ensures
            forall|c: usize, row: usize| #[trigger] self.assigned(c, row) == if r.0@.contains_key(c) && r.0@[c]@.contains_key(row) {
                Some(value_view(r.0@[c]@[row]))
            } else {
                None
            },
            forall|c: usize| #[trigger] self.fills(c) == if r.1@.contains_key(c) { fills_view(r.1@[c]@) } else { Seq::empty() },
    {
        (self.fixed, self.blanket_fills)
    }
}

} // verus!

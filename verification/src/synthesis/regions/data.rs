//! What synthesis records of a region: its name, index, rows, columns and selectors.
use vstd::prelude::*;
use crate::poly::Selector;
use crate::resolvers::Fixed;
use crate::synthesis::regions::RegionIndex;
use crate::table::{Any, Column};
use crate::text::{debug_quoted, decimal, decimal_text, header_text};
use vstd::string::StringExecFns;

verus! {

/// Whether a region is an ordinary region or a lookup table.
#[derive(Debug, Copy, Clone, PartialEq, Eq, Structural)]
pub enum RegionKind {
    /// An ordinary region.
    Region,
    /// A lookup table.
    Table,
}

/// The text of the index of a region: its number, or `<unk>` when it has none.
pub open spec fn index_text(index: Option<RegionIndex>) -> Seq<char> {
    match index {
        Some(i) => decimal(i.0 as nat),
        None => "<unk>"@,
    }
}

/// The header of a region: `region`, its index and its quoted name, or, for a table, `table`
/// and its quoted name.
pub open spec fn header_of(kind: RegionKind, index: Option<RegionIndex>, name: Seq<char>) -> Seq<char> {
    match kind {
        RegionKind::Region => "region "@ + index_text(index) + seq![' '] + debug_quoted(name),
        RegionKind::Table => "table "@ + debug_quoted(name),
    }
}

/// Whether the list holds the column.
pub open spec fn has_column(cols: Seq<Column<Any>>, c: Column<Any>) -> bool {
    exists|i: int| 0 <= i < cols.len() && cols[i] == c
}

/// Whether some entry of the list enables the selector at the row.
pub open spec fn sel_enabled(v: Seq<(Selector, Vec<usize>)>, s: Selector, row: usize) -> bool {
    exists|i: int| 0 <= i < v.len() && v[i].0 == s && v[i].1@.contains(row)
}

/// Equality of two columns of any type.
pub fn same_column(a: &Column<Any>, b: &Column<Any>) -> (r: bool)
    ensures
        r == (*a == *b),
{
    a.index == b.index && a.column_type == b.column_type
}

/// The data of a region.
#[derive(Debug)]
pub struct RegionDataImpl {
    /// The name of the region. Not required to be unique.
    name: String,
    kind: RegionKind,
    index: Option<RegionIndex>,
    /// The selectors that have been enabled in this region, with the rows where they were
    /// enabled. All other selectors are by construction not enabled.
    enabled_selectors: Vec<(Selector, Vec<usize>)>,
    /// The columns involved in this region.
    columns: Vec<Column<Any>>,
    /// The rows that this region starts and ends on, if known.
    rows: Option<(usize, usize)>,
    namespaces: Vec<String>,
}

/// `b` has the name, index and kind of `a`.
pub open spec fn same_identity(a: RegionDataImpl, b: RegionDataImpl) -> bool {
    &&& b.spec_name() == a.spec_name()
    &&& b.spec_index() == a.spec_index()
    &&& b.spec_kind() == a.spec_kind()
}

/// `b` is `a` after a cell of the column at the row was recorded (see [`extends`]); nothing
/// else changes.
pub open spec fn extent_updated(a: RegionDataImpl, b: RegionDataImpl, column: Column<Any>, row: usize) -> bool {
    &&& extends(a, b, column, row)
    &&& same_identity(a, b)
    &&& b.spec_namespaces() == a.spec_namespaces()
    &&& forall|s: Selector, r: usize| b.enabled(s, r) == a.enabled(s, r)
}

/// `b` is `a` with the selector enabled at the row (see [`enables`]); nothing else changes.
pub open spec fn selector_enabled(a: RegionDataImpl, b: RegionDataImpl, s: Selector, row: usize) -> bool {
    &&& enables(a, b, s, row)
    &&& same_identity(a, b)
    &&& b.spec_rows() == a.spec_rows()
    &&& b.spec_columns() == a.spec_columns()
    &&& b.spec_namespaces() == a.spec_namespaces()
}

/// `b` is `a` with the namespace opened; nothing else changes.
pub open spec fn namespace_pushed(a: RegionDataImpl, b: RegionDataImpl, name: Seq<char>) -> bool {
    &&& b.spec_namespaces() == a.spec_namespaces().push(name)
    &&& same_identity(a, b)
    &&& b.spec_rows() == a.spec_rows()
    &&& b.spec_columns() == a.spec_columns()
    &&& forall|s: Selector, r: usize| b.enabled(s, r) == a.enabled(s, r)
}

/// The namespaces after closing one: the innermost one with the name, if a name is given and
/// open (the namespaces stay as they are when it is not); else the innermost one, if any.
pub open spec fn popped(ns: Seq<Seq<char>>, name: Option<Seq<char>>, after: Seq<Seq<char>>) -> bool {
    match name {
        Some(n) => if exists|i: int| 0 <= i < ns.len() && ns[i] == n {
            exists|i: int| 0 <= i < ns.len() && ns[i] == n && (forall|j: int| i < j < ns.len() ==> ns[j] != n)
                && after == ns.remove(i)
        } else {
            after == ns
        },
        None => after == (if ns.len() == 0 { ns } else { ns.drop_last() }),
    }
}

/// `b` is `a` with a namespace closed (see [`popped`]); nothing else changes.
pub open spec fn namespace_popped(a: RegionDataImpl, b: RegionDataImpl, name: Option<Seq<char>>) -> bool {
    &&& popped(a.spec_namespaces(), name, b.spec_namespaces())
    &&& same_identity(a, b)
    &&& b.spec_rows() == a.spec_rows()
    &&& b.spec_columns() == a.spec_columns()
    &&& forall|s: Selector, r: usize| b.enabled(s, r) == a.enabled(s, r)
}

/// `b` has the columns of `a` and the column, and no other, and its rows are those of `a`
/// widened to take in the row.
pub open spec fn extends(a: RegionDataImpl, b: RegionDataImpl, column: Column<Any>, row: usize) -> bool {
    &&& forall|c: Column<Any>| has_column(b.spec_columns(), c) <==> (has_column(a.spec_columns(), c) || c == column)
    &&& b.spec_rows() == (match a.spec_rows() {
        None => Some((row, row)),
        Some((s, e)) => Some((if row < s { row } else { s }, if row > e { row } else { e })),
    })
}

/// After recording cells one by one, the region has exactly the columns it had and those of the
/// cells, and its rows run from the least to the greatest of its former bounds and the rows of
/// the cells.
pub proof fn law_region_extent(states: Seq<RegionDataImpl>, calls: Seq<(Column<Any>, usize)>)
    requires
        states.len() == calls.len() + 1,
        forall|i: int| 0 <= i < calls.len() ==> extends(states[i], states[i + 1], #[trigger] calls[i].0, calls[i].1),
    ensures
        forall|c: Column<Any>| has_column(states.last().spec_columns(), c) <==> (has_column(states[0].spec_columns(), c)
            || exists|i: int| 0 <= i < calls.len() && (#[trigger] calls[i]).0 == c),
        calls.len() == 0 ==> states.last().spec_rows() == states[0].spec_rows(),
        calls.len() > 0 ==> states.last().spec_rows() is Some,
        forall|i: int| 0 <= i < calls.len() ==> (states.last().spec_rows() matches Some((s, e)) && s <= (#[trigger] calls[i]).1 <= e),
        states[0].spec_rows() matches Some((s0, e0)) ==> (states.last().spec_rows() matches Some((s, e)) && s <= s0 && e0 <= e),
        states.last().spec_rows() matches Some((s, e)) ==> ((states[0].spec_rows() matches Some((s0, _)) && s == s0)
            || exists|i: int| 0 <= i < calls.len() && (#[trigger] calls[i]).1 == s),
        states.last().spec_rows() matches Some((s, e)) ==> ((states[0].spec_rows() matches Some((_, e0)) && e == e0)
            || exists|i: int| 0 <= i < calls.len() && (#[trigger] calls[i]).1 == e),
    decreases calls.len(),
{
    if calls.len() > 0 {
        let n = calls.len() - 1;
        let ps = states.drop_last();
        let pc = calls.drop_last();
        assert forall|i: int| 0 <= i < pc.len() implies extends(ps[i], ps[i + 1], #[trigger] pc[i].0, pc[i].1) by {
            assert(pc[i] == calls[i]);
            assert(extends(states[i], states[i + 1], calls[i].0, calls[i].1));
        }
        law_region_extent(ps, pc);
        assert(ps.last() == states[n]);
        assert(extends(states[n], states[n + 1], calls[n].0, calls[n].1));
        assert forall|c: Column<Any>| has_column(states.last().spec_columns(), c) <==> (has_column(states[0].spec_columns(), c)
            || exists|i: int| 0 <= i < calls.len() && (#[trigger] calls[i]).0 == c) by {
            if exists|i: int| 0 <= i < pc.len() && (#[trigger] pc[i]).0 == c {
                let j = choose|j: int| 0 <= j < pc.len() && (#[trigger] pc[j]).0 == c;
                assert(calls[j] == pc[j]);
            }
            if exists|i: int| 0 <= i < calls.len() && (#[trigger] calls[i]).0 == c {
                let j = choose|j: int| 0 <= j < calls.len() && (#[trigger] calls[j]).0 == c;
                if j < n {
                    assert(pc[j] == calls[j]);
                }
            }
        }
        assert forall|i: int| 0 <= i < calls.len() implies (states.last().spec_rows() matches Some((s, e)) && s <= (#[trigger] calls[i]).1 <= e) by {
            if i < n {
                assert(pc[i] == calls[i]);
            }
        }
        if let Some((s, e)) = states.last().spec_rows() {
            if !(states[0].spec_rows() matches Some((s0, _)) && s == s0) {
                if s != calls[n].1 {
                    let k = choose|k: int| 0 <= k < pc.len() && (#[trigger] pc[k]).1 == s;
                    assert(calls[k] == pc[k]);
                }
            }
            if !(states[0].spec_rows() matches Some((_, e0)) && e == e0) {
                if e != calls[n].1 {
                    let k = choose|k: int| 0 <= k < pc.len() && (#[trigger] pc[k]).1 == e;
                    assert(calls[k] == pc[k]);
                }
            }
        }
    }
}

/// `b` has the selectors enabled that `a` has, and the selector at the row, and no other.
pub open spec fn enables(a: RegionDataImpl, b: RegionDataImpl, s: Selector, row: usize) -> bool {
    forall|t: Selector, r: usize| b.enabled(t, r) <==> (a.enabled(t, r) || (t == s && r == row))
}

/// After enabling selectors one by one, a selector is enabled at a row exactly when it was
/// before or one of the calls enabled it there.
pub proof fn law_enabled_selectors(states: Seq<RegionDataImpl>, calls: Seq<(Selector, usize)>)
    requires
        states.len() == calls.len() + 1,
        forall|i: int| 0 <= i < calls.len() ==> enables(states[i], states[i + 1], #[trigger] calls[i].0, calls[i].1),
    ensures
        forall|t: Selector, r: usize| states.last().enabled(t, r) <==> (states[0].enabled(t, r) || calls.contains((t, r))),
    decreases calls.len(),
{
    if calls.len() > 0 {
        let n = calls.len() - 1;
        assert forall|i: int| 0 <= i < calls.drop_last().len() implies enables(states.drop_last()[i], states.drop_last()[i + 1],
            #[trigger] calls.drop_last()[i].0, calls.drop_last()[i].1) by {
            assert(calls.drop_last()[i] == calls[i]);
            assert(enables(states[i], states[i + 1], calls[i].0, calls[i].1));
        }
        law_enabled_selectors(states.drop_last(), calls.drop_last());
        assert(enables(states[n], states[n + 1], calls[n].0, calls[n].1));
        assert forall|t: Selector, r: usize| states.last().enabled(t, r) <==> (states[0].enabled(t, r) || calls.contains((t, r))) by {
            assert(states.drop_last().last() == states[n]);
            if calls.drop_last().contains((t, r)) {
                let j = choose|j: int| 0 <= j < calls.drop_last().len() && calls.drop_last()[j] == (t, r);
                assert(calls[j] == (t, r));
            }
            if calls.contains((t, r)) && (t, r) != calls[n] {
                let j = choose|j: int| 0 <= j < calls.len() && calls[j] == (t, r);
                assert(calls.drop_last()[j] == (t, r));
            }
            if (t, r) == calls[n] {
                assert(calls.contains((t, r)));
            }
        }
    }
}

impl RegionDataImpl {
    /// Each selector has one entry, each column is listed once, and the rows are not
    /// reversed.
    #[verifier::type_invariant]
    spec fn wf(&self) -> bool {
        &&& forall|i: int, j: int| 0 <= i < j < self.enabled_selectors@.len()
            ==> self.enabled_selectors@[i].0 != self.enabled_selectors@[j].0
        &&& forall|i: int, j: int| 0 <= i < j < self.columns@.len() ==> self.columns@[i] != self.columns@[j]
        &&& self.rows matches Some((s, e)) ==> s <= e
    }

    /// The name of the region.
    pub closed spec fn spec_name(&self) -> Seq<char> {
        self.name@
    }

    /// Whether the region is a table.
    pub closed spec fn spec_kind(&self) -> RegionKind {
        self.kind
    }

    /// The index of the region.
    pub closed spec fn spec_index(&self) -> Option<RegionIndex> {
        self.index
    }

    /// The first and last rows of the region, if any cell was assigned.
    pub closed spec fn spec_rows(&self) -> Option<(usize, usize)> {
        self.rows
    }

    /// The columns of the region, each once.
    pub closed spec fn spec_columns(&self) -> Seq<Column<Any>> {
        self.columns@
    }

    /// The namespaces currently open, innermost last.
    pub closed spec fn spec_namespaces(&self) -> Seq<Seq<char>> {
        Seq::new(self.namespaces@.len(), |i: int| self.namespaces@[i]@)
    }

    /// Whether the selector is enabled at the row.
    pub closed spec fn enabled(&self, s: Selector, row: usize) -> bool {
        sel_enabled(self.enabled_selectors@, s, row)
    }

    /// A region with the given name and index, with no row, column, selector or namespace.
    pub fn new(name: String, index: RegionIndex) -> (r: Self)
        ensures
            r.spec_name() == name@,
            r.spec_index() == Some(index),
            r.spec_kind() == RegionKind::Region,
            r.spec_rows() is None,
            r.spec_columns().len() == 0,
            r.spec_namespaces().len() == 0,
            forall|s: Selector, row: usize| !r.enabled(s, row),
    {
        RegionDataImpl {
            name,
            kind: RegionKind::Region,
            index: Some(index),
            enabled_selectors: Vec::new(),
            columns: Vec::new(),
            rows: None,
            namespaces: Vec::new(),
        }
    }

    /// The selectors enabled in the region, with the rows where each was enabled.
    pub fn enabled_selectors(&self) -> (r: &Vec<(Selector, Vec<usize>)>)
        ensures
            forall|s: Selector, row: usize| self.enabled(s, row) <==> exists|i: int| 0 <= i < r@.len()
                && r@[i].0 == s && r@[i].1@.contains(row),
    {
        &self.enabled_selectors
    }

    /// The name of the region.
    pub fn name(&self) -> (r: &str)
        ensures
            r@ == self.spec_name(),
    {
        self.name.as_str()
    }

    /// The text of the index of the region, as [`index_text`] says.
    pub fn index_as_str(&self) -> (r: String)
        ensures
            r@ == index_text(self.spec_index()),
    {
        match self.index {
            Some(i) => decimal_text(i.0),
            None => {
                proof {
                    reveal_strlit("<unk>");
                }
                String::from_str("<unk>")
            },
        }
    }

    /// The header of the region, as [`header_of`] says. A table has no index.
    pub fn header(&self) -> (r: String)
        requires
            self.spec_kind() == RegionKind::Table ==> self.spec_index() is None,
        ensures
            r@ == header_of(self.spec_kind(), self.spec_index(), self.spec_name()),
    {
        proof {
            reveal_strlit("region ");
            reveal_strlit("table");
            reveal_strlit("table ");
            reveal_strlit(" ");
        }
        match self.kind {
            RegionKind::Region => {
                let kind = String::from_str("region ").concat(self.index_as_str().as_str());
                let r = header_text(kind.as_str(), self.name.as_str());
                assert(r@ =~= header_of(self.spec_kind(), self.spec_index(), self.spec_name()));
                r
            },
            RegionKind::Table => {
                let r = header_text("table", self.name.as_str());
                assert(r@ =~= header_of(self.spec_kind(), self.spec_index(), self.spec_name()));
                r
            },
        }
    }

    /// The index of the region.
    pub fn index(&self) -> (r: Option<RegionIndex>)
        ensures
            r == self.spec_index(),
    {
        self.index
    }

    /// Whether the region is a table.
    pub fn kind(&self) -> (r: RegionKind)
        ensures
            r == self.spec_kind(),
    {
        self.kind
    }

    /// The first row of the region.
    pub fn start(&self) -> (r: Option<usize>)
        ensures
            r == (match self.spec_rows() {
                Some((s, _)) => Some(s),
                None => None::<usize>,
            }),
    {
        match self.rows {
            Some((start, _)) => Some(start),
            None => None,
        }
    }

    /// Takes the index from the region and leaves it without one.
    pub fn take_index(&mut self) -> (r: Option<RegionIndex>)
        ensures
            r == old(self).spec_index(),
            final(self).spec_index() is None,
            final(self).spec_name() == old(self).spec_name(),
            final(self).spec_kind() == old(self).spec_kind(),
            final(self).spec_rows() == old(self).spec_rows(),
            final(self).spec_columns() == old(self).spec_columns(),
            final(self).spec_namespaces() == old(self).spec_namespaces(),
            forall|s: Selector, row: usize| final(self).enabled(s, row) == old(self).enabled(s, row),
    {
        proof {
            use_type_invariant(&*self);
        }
        let r = self.index;
        self.index = None;
        r
    }

    /// The selectors enabled at the row, each once.
    pub fn selectors_enabled_for_row(&self, row: usize) -> (r: Vec<Selector>)
        ensures
            forall|s: Selector| r@.contains(s) <==> self.enabled(s, row),
            forall|i: int, j: int| 0 <= i < j < r@.len() ==> r@[i] != r@[j],
    {
        proof {
            use_type_invariant(self);
        }
        let ghost es = self.enabled_selectors@;
        let mut out: Vec<Selector> = Vec::new();
        let mut i: usize = 0;
        while i < self.enabled_selectors.len()
            invariant
                es == self.enabled_selectors@,
                i <= es.len(),
                forall|a: int, b: int| 0 <= a < b < es.len() ==> es[a].0 != es[b].0,
                forall|s: Selector| #[trigger] out@.contains(s) <==> sel_enabled(es.take(i as int), s, row),
                forall|a: int| 0 <= a < out@.len() ==> exists|k: int| 0 <= k < i && es[k].0 == #[trigger] out@[a],
                forall|a: int, b: int| 0 <= a < b < out@.len() ==> out@[a] != out@[b],
            decreases es.len() - i,
        {
            let ghost before = out@;
            let (sel, rows) = (&self.enabled_selectors[i].0, &self.enabled_selectors[i].1);
            let hit = contains_usize(rows, row);
            proof {
                assert forall|t: Selector| #[trigger] sel_enabled(es.take(i + 1), t, row) <==> (sel_enabled(es.take(i as int), t, row)
                    || (t == *sel && hit)) by {
                    if sel_enabled(es.take(i + 1), t, row) {
                        let k = choose|k: int| #![trigger es.take(i + 1)[k]] 0 <= k < es.take(i + 1).len() && es.take(i + 1)[k].0 == t && es.take(i + 1)[k].1@.contains(row);
                        if k < i {
                            assert(es.take(i as int)[k] == es[k]);
                        }
                    }
                    if sel_enabled(es.take(i as int), t, row) {
                        let k = choose|k: int| #![trigger es.take(i as int)[k]] 0 <= k < es.take(i as int).len() && es.take(i as int)[k].0 == t && es.take(i as int)[k].1@.contains(row);
                        assert(es.take(i + 1)[k] == es[k]);
                    }
                    if t == *sel && hit {
                        assert(es.take(i + 1)[i as int] == es[i as int]);
                    }
                }
            }
            if hit {
                out.push(*sel);
                proof {
                    assert forall|t: Selector| #[trigger] out@.contains(t) <==> (before.contains(t) || t == *sel) by {
                        if out@.contains(t) && t != *sel {
                            let a = choose|a: int| 0 <= a < out@.len() && out@[a] == t;
                            assert(before[a] == t);
                        }
                        if before.contains(t) {
                            let a = choose|a: int| 0 <= a < before.len() && before[a] == t;
                            assert(out@[a] == t);
                        }
                        if t == *sel {
                            assert(out@[before.len() as int] == t);
                        }
                    }
                    assert forall|a: int| 0 <= a < out@.len() implies exists|k: int| 0 <= k < i + 1 && es[k].0 == #[trigger] out@[a] by {
                        if a < before.len() {
                            assert(out@[a] == before[a]);
                        } else {
                            assert(es[i as int].0 == out@[a]);
                        }
                    }
                    assert forall|a: int, b: int| 0 <= a < b < out@.len() implies out@[a] != out@[b] by {
                        if b == before.len() {
                            assert(out@[a] == before[a]);
                            let k = choose|k: int| 0 <= k < i && es[k].0 == before[a];
                            assert(es[k].0 != es[i as int].0);
                        } else {
                            assert(out@[a] == before[a] && out@[b] == before[b]);
                        }
                    }
                }
            }
            i = i + 1;
        }
        proof {
            assert(es.take(es.len() as int) =~= es);
        }
        out
    }

    /// Records that a cell of the column at the row belongs to the region: the column is added
    /// to the columns and the rows grow to include the row.
    pub fn update_extent(&mut self, column: Column<Any>, row: usize)
        ensures
            extent_updated(*old(self), *final(self), column, row),
    {
        proof {
            use_type_invariant(&*self);
        }
        let mut cols = Vec::new();
        std::mem::swap(&mut cols, &mut self.columns);
        let ghost before = cols@;
        let mut found = false;
        let mut i: usize = 0;
        while i < cols.len()
            invariant
                cols@ == before,
                i <= cols@.len(),
                found ==> has_column(before, column),
                !found ==> forall|k: int| 0 <= k < i ==> cols@[k] != column,
            decreases cols@.len() - i,
        {
            if same_column(&cols[i], &column) {
                found = true;
            }
            i = i + 1;
        }
        if !found {
            cols.push(column);
        }
        let rows = match self.rows {
            None => Some((row, row)),
            Some((s, e)) => Some((if row < s { row } else { s }, if row > e { row } else { e })),
        };
        proof {
            assert forall|a: int, b: int| 0 <= a < b < cols@.len() implies cols@[a] != cols@[b] by {
                if b == before.len() {
                    assert(cols@[a] == before[a]);
                }
            }
            assert forall|c: Column<Any>| has_column(cols@, c) <==> (has_column(before, c) || c == column) by {
                if has_column(cols@, c) {
                    let k = choose|k: int| 0 <= k < cols@.len() && cols@[k] == c;
                    if k < before.len() {
                        assert(before[k] == c);
                    }
                }
                if has_column(before, c) {
                    let k = choose|k: int| 0 <= k < before.len() && before[k] == c;
                    assert(cols@[k] == c);
                }
                if c == column && !found {
                    assert(cols@[before.len() as int] == c);
                }
            }
        }
        self.columns = cols;
        self.rows = rows;
    }

    /// Records that the selector is enabled at the row.
    pub fn enable_selector(&mut self, s: Selector, row: usize)
        ensures
            selector_enabled(*old(self), *final(self), s, row),
    {
        proof {
            use_type_invariant(&*self);
        }
        let mut sels = Vec::new();
        std::mem::swap(&mut sels, &mut self.enabled_selectors);
        let ghost before = sels@;
        let mut i: usize = 0;
        while i < sels.len()
            invariant
                sels@ == before,
                i <= sels@.len(),
                forall|k: int| 0 <= k < i ==> sels@[k].0 != s,
            ensures
                sels@ == before,
                i <= sels@.len(),
                forall|k: int| 0 <= k < i ==> sels@[k].0 != s,
                i < sels@.len() ==> sels@[i as int].0 == s,
            decreases sels@.len() - i,
        {
            if sels[i].0 == s {
                break;
            }
            i = i + 1;
        }
        if i < sels.len() {
            let mut entry = sels.remove(i);
            let ghost old_rows = entry.1@;
            entry.1.push(row);
            let ghost e2 = entry;
            sels.insert(i, entry);
            proof {
                assert(e2.0 == s);
                assert(sels@ =~= before.update(i as int, e2));
                assert forall|t: Selector, r: usize| #[trigger] sel_enabled(sels@, t, r)
                    <==> (sel_enabled(before, t, r) || (t == s && r == row)) by {
                    if exists|k: int| 0 <= k < sels@.len() && sels@[k].0 == t && sels@[k].1@.contains(r) {
                        let k = choose|k: int| 0 <= k < sels@.len() && sels@[k].0 == t && sels@[k].1@.contains(r);
                        if k == i {
                            if !(t == s && r == row) {
                                let m = choose|m: int| 0 <= m < e2.1@.len() && e2.1@[m] == r;
                                assert(old_rows[m] == r);
                                assert(before[k].1@.contains(r));
                            }
                        } else {
                            assert(before[k] == sels@[k]);
                        }
                    }
                    if exists|k: int| 0 <= k < before.len() && before[k].0 == t && before[k].1@.contains(r) {
                        let k = choose|k: int| 0 <= k < before.len() && before[k].0 == t && before[k].1@.contains(r);
                        if k == i {
                            let m = choose|m: int| 0 <= m < old_rows.len() && old_rows[m] == r;
                            assert(e2.1@[m] == r);
                            assert(sels@[k].1@.contains(r));
                        } else {
                            assert(before[k] == sels@[k]);
                        }
                    }
                    if t == s && r == row {
                        assert(e2.1@[old_rows.len() as int] == row);
                        assert(sels@[i as int].1@.contains(row));
                    }
                }
            }
        } else {
            let ghost b2 = sels@;
            sels.push((s, vec![row]));
            proof {
                assert forall|a: int, b: int| 0 <= a < b < sels@.len() implies sels@[a].0 != sels@[b].0 by {
                    if b == b2.len() {
                        assert(sels@[a] == before[a]);
                    }
                }
                assert forall|t: Selector, r: usize| #[trigger] sel_enabled(sels@, t, r)
                    <==> (sel_enabled(before, t, r) || (t == s && r == row)) by {
                    if exists|k: int| 0 <= k < sels@.len() && sels@[k].0 == t && sels@[k].1@.contains(r) {
                        let k = choose|k: int| 0 <= k < sels@.len() && sels@[k].0 == t && sels@[k].1@.contains(r);
                        if k < before.len() {
                            assert(before[k] == sels@[k]);
                        } else {
                            assert(sels@[k].1@ == seq![row]);
                        }
                    }
                    if exists|k: int| 0 <= k < before.len() && before[k].0 == t && before[k].1@.contains(r) {
                        let k = choose|k: int| 0 <= k < before.len() && before[k].0 == t && before[k].1@.contains(r);
                        assert(before[k] == sels@[k]);
                    }
                    if t == s && r == row {
                        assert(sels@[before.len() as int].1@[0] == row);
                        assert(sels@[before.len() as int].1@.contains(row));
                    }
                }
            }
        }
        self.enabled_selectors = sels;
    }
}

/// Whether the list holds the number.
fn contains_usize(v: &Vec<usize>, x: usize) -> (r: bool)
    ensures
        r == v@.contains(x),
{
    let mut i: usize = 0;
    while i < v.len()
        invariant
            i <= v@.len(),
            forall|k: int| 0 <= k < i ==> v@[k] != x,
        decreases v@.len() - i,
    {
        if v[i] == x {
            assert(v@[i as int] == x);
            return true;
        }
        i = i + 1;
    }
    false
}

impl RegionDataImpl {
    /// The rows of the region, as the range from its first row to one past its last; empty
    /// when no cell was assigned.
    pub fn rows(&self) -> (r: core::ops::Range<usize>)
        requires
            self.spec_rows() matches Some((_, e)) ==> e < usize::MAX,
        ensures
            r == (match self.spec_rows() {
                Some((s, e)) => (s..(e + 1) as usize),
                None => (0usize..0usize),
            }),
            r.start <= r.end,
    {
        proof {
            use_type_invariant(self);
        }
        match self.rows {
            Some((begin, end)) => begin..end + 1,
            None => 0..0,
        }
    }

    /// Opens a namespace inside the current ones.
    pub fn push_namespace(&mut self, name: String)
        ensures
            namespace_pushed(*old(self), *final(self), name@),
    {
        proof {
            use_type_invariant(&*self);
        }
        let ghost n = name@;
        let mut ns = Vec::new();
        std::mem::swap(&mut ns, &mut self.namespaces);
        ns.push(name);
        self.namespaces = ns;
        proof {
            assert(self.spec_namespaces() =~= old(self).spec_namespaces().push(n));
        }
    }

    /// Closes the last namespace with the given name, if any is open; without a name, closes
    /// the innermost namespace, if any.
    pub fn pop_namespace(&mut self, name: Option<String>)
        ensures
            namespace_popped(*old(self), *final(self), match name { Some(n) => Some(n@), None => None }),
    {
        proof {
            use_type_invariant(&*self);
        }
        let ghost ns = old(self).spec_namespaces();
        let mut v = Vec::new();
        std::mem::swap(&mut v, &mut self.namespaces);
        match name {
            Some(n) => {
                let mut i = v.len();
                while i > 0
                    invariant
                        i <= v@.len(),
                        ns == Seq::new(v@.len(), |k: int| v@[k]@),
                        forall|j: int| i <= j < ns.len() ==> ns[j] != n@,
                    ensures
                        i <= v@.len(),
                        forall|j: int| i <= j < ns.len() ==> ns[j] != n@,
                        i > 0 ==> ns[i - 1] == n@,
                    decreases i,
                {
                    if v[i - 1] == n {
                        break;
                    }
                    i = i - 1;
                }
                if i > 0 {
                    v.remove(i - 1);
                    self.namespaces = v;
                    proof {
                        assert(self.spec_namespaces() =~= ns.remove(i - 1));
                    }
                } else {
                    self.namespaces = v;
                    proof {
                        assert forall|k: int| 0 <= k < ns.len() implies ns[k] != n@ by {}
                        assert(self.spec_namespaces() =~= ns);
                    }
                }
            },
            None => {
                v.pop();
                self.namespaces = v;
                proof {
                    if ns.len() > 0 {
                        assert(self.spec_namespaces() =~= ns.drop_last());
                    } else {
                        assert(self.spec_namespaces() =~= ns);
                    }
                }
            },
        }
    }

    /// The fixed columns of the region, each once.
    pub fn fixed_columns(&self) -> (r: Vec<Column<Fixed>>)
        ensures
            forall|i: int| 0 <= i < r@.len() ==> has_column(self.spec_columns(), Column { index: r@[i].index, column_type: Any::Fixed }),
            forall|c: Column<Any>| has_column(self.spec_columns(), c) && c.column_type == Any::Fixed ==> exists|i: int|
                0 <= i < r@.len() && r@[i].index == c.index,
    {
        let mut out: Vec<Column<Fixed>> = Vec::new();
        let mut i: usize = 0;
        while i < self.columns.len()
            invariant
                i <= self.columns@.len(),
                forall|k: int| 0 <= k < out@.len() ==> has_column(self.columns@, Column { index: out@[k].index, column_type: Any::Fixed }),
                forall|k: int| 0 <= k < i && self.columns@[k].column_type == Any::Fixed ==> exists|m: int|
                    0 <= m < out@.len() && out@[m].index == self.columns@[k].index,
            decreases self.columns@.len() - i,
        {
            let c = self.columns[i];
            let ghost before = out@;
            match c.as_fixed() {
                Some(f) => {
                    out.push(f);
                    proof {
                        assert(self.columns@[i as int] == Column { index: f.index, column_type: Any::Fixed });
                        assert forall|k: int| 0 <= k < i + 1 && self.columns@[k].column_type == Any::Fixed implies exists|m: int|
                            0 <= m < out@.len() && out@[m].index == self.columns@[k].index by {
                            if k < i {
                                let m = choose|m: int| 0 <= m < before.len() && before[m].index == self.columns@[k].index;
                                assert(out@[m] == before[m]);
                            } else {
                                assert(out@[before.len() as int] == f);
                            }
                        }
                    }
                },
                None => {},
            }
            i = i + 1;
        }
        proof {
            assert forall|c: Column<Any>| has_column(self.spec_columns(), c) && c.column_type == Any::Fixed implies exists|i: int|
                0 <= i < out@.len() && out@[i].index == c.index by {
                let k = choose|k: int| 0 <= k < self.columns@.len() && self.columns@[k] == c;
            }
        }
        out
    }

    /// The columns of the region, each once.
    pub fn columns(&self) -> (r: &Vec<Column<Any>>)
        ensures
            r@ == self.spec_columns(),
    {
        &self.columns
    }
}

/// A view of the data of a region.
#[derive(Copy, Clone, Debug)]
pub struct RegionData<'a> {
    inner: &'a RegionDataImpl,
}

impl<'a> RegionData<'a> {
    /// The data viewed.
    pub closed spec fn data(&self) -> &'a RegionDataImpl {
        self.inner
    }

    /// A view of the data of a region.
    pub fn new(inner: &'a RegionDataImpl) -> (r: Self)
        ensures
            r.data() == inner,
    {
        RegionData { inner }
    }

    /// The rows of the region, as the range from its first row to one past its last.
    pub fn rows(&self) -> (r: core::ops::Range<usize>)
        requires
            self.data().spec_rows() matches Some((_, e)) ==> e < usize::MAX,
        ensures
            r == (match self.data().spec_rows() {
                Some((s, e)) => (s..(e + 1) as usize),
                None => (0usize..0usize),
            }),
            r.start <= r.end,
    {
        self.inner.rows()
    }

    /// The name of the region.
    pub fn name(&self) -> (r: &'a str)
        ensures
            r@ == self.data().spec_name(),
    {
        self.inner.name()
    }

    /// The header of the region, as [`header_of`] says. A table has no index.
    pub fn header(&self) -> (r: String)
        requires
            self.data().spec_kind() == RegionKind::Table ==> self.data().spec_index() is None,
        ensures
            r@ == header_of(self.data().spec_kind(), self.data().spec_index(), self.data().spec_name()),
    {
        self.inner.header()
    }

    /// The index of the region.
    pub fn index(&self) -> (r: Option<RegionIndex>)
        ensures
            r == self.data().spec_index(),
    {
        self.inner.index()
    }

    /// The first row of the region.
    pub fn start(&self) -> (r: Option<usize>)
        ensures
            r == (match self.data().spec_rows() {
                Some((s, _)) => Some(s),
                None => None::<usize>,
            }),
    {
        self.inner.start()
    }

    /// Whether the region is a table.
    pub fn kind(&self) -> (r: RegionKind)
        ensures
            r == self.data().spec_kind(),
    {
        self.inner.kind()
    }

    /// The selectors enabled at the row, each once.
    pub fn selectors_enabled_for_row(&self, row: usize) -> (r: Vec<Selector>)
        ensures
            forall|s: Selector| r@.contains(s) <==> self.data().enabled(s, row),
            forall|i: int, j: int| 0 <= i < j < r@.len() ==> r@[i] != r@[j],
    {
        self.inner.selectors_enabled_for_row(row)
    }

    /// The selectors enabled in the region, with the rows where each was enabled.
    pub fn enabled_selectors(&self) -> (r: &'a Vec<(Selector, Vec<usize>)>)
        ensures
            forall|s: Selector, row: usize| self.data().enabled(s, row) <==> exists|i: int| 0 <= i < r@.len()
                && r@[i].0 == s && r@[i].1@.contains(row),
    {
        self.inner.enabled_selectors()
    }

    /// The columns of the region, each once.
    pub fn columns(&self) -> (r: &'a Vec<Column<Any>>)
        ensures
            r@ == self.data().spec_columns(),
    {
        self.inner.columns()
    }

    /// The offset of the row from the start of the region, only if the row is within the
    /// rows of the region.
    pub fn relativize(&self, row: usize) -> (r: Option<usize>)
        ensures
            r == (match self.data().spec_rows() {
                Some((s, e)) => if s <= row <= e { Some((row - s) as usize) } else { None::<usize> },
                None => None::<usize>,
            }),
    {
        match self.inner.rows {
            Some((s, e)) => if s <= row && row <= e {
                Some(row - s)
            } else {
                None
            },
            None => None,
        }
    }
}

} // verus!

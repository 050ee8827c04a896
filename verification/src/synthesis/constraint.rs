//! Copy constraints between cells, and between fixed cells and constants, as a graph.
use vstd::prelude::*;
use crate::felt::Felt;
use crate::resolvers::Fixed;
use crate::table::{Any, Column};

verus! {

/// Possible nodes in the graph.
#[derive(Debug)]
pub enum EqConstraintArg {
    /// Constant finite field element.
    Const(Felt),
    /// A cell of any type.
    Any(Column<Any>, usize),
    /// A fixed cell.
    Fixed(Column<Fixed>, usize),
}

/// Model of a node: constants are natural numbers.
pub enum ArgModel {
    /// Constant value.
    Const(nat),
    /// A cell of any type.
    Any(Column<Any>, usize),
    /// A fixed cell.
    Fixed(Column<Fixed>, usize),
}

impl View for EqConstraintArg {
    type V = ArgModel;

    open spec fn view(&self) -> ArgModel {
        match self {
            EqConstraintArg::Const(f) => ArgModel::Const(f@),
            EqConstraintArg::Any(c, r) => ArgModel::Any(*c, *r),
            EqConstraintArg::Fixed(c, r) => ArgModel::Fixed(*c, *r),
        }
    }
}

/// Represents a copy constraint in between cells or in between a fixed cell and a constant value.
#[derive(Debug)]
pub enum EqConstraint {
    /// Edge between two cells of any type.
    AnyToAny(Column<Any>, usize, Column<Any>, usize),
    /// Edge between a fixed cell and a constant value.
    FixedToConst(Column<Fixed>, usize, Felt),
}

/// The two ends of an edge, as models.
pub open spec fn ends(e: EqConstraint) -> (ArgModel, ArgModel) {
    match e {
        EqConstraint::AnyToAny(c1, r1, c2, r2) => (ArgModel::Any(c1, r1), ArgModel::Any(c2, r2)),
        EqConstraint::FixedToConst(c, r, f) => (ArgModel::Fixed(c, r), ArgModel::Const(f@)),
    }
}

/// The pair of ends is one that an edge can have: two cells, or a fixed cell and a constant
/// in either order.
pub open spec fn valid_ends(a: ArgModel, b: ArgModel) -> bool {
    match (a, b) {
        (ArgModel::Any(_, _), ArgModel::Any(_, _)) => true,
        (ArgModel::Fixed(_, _), ArgModel::Const(_)) => true,
        (ArgModel::Const(_), ArgModel::Fixed(_, _)) => true,
        _ => false,
    }
}

/// `r` is the edge between the two ends, from the one that is not a constant.
pub open spec fn joins(a: ArgModel, b: ArgModel, r: EqConstraint) -> bool {
    &&& a is Const ==> ends(r) == (b, a)
    &&& !(a is Const) ==> ends(r) == (a, b)
}

/// The ends of an edge can always be joined again, and joining them gives an edge with the
/// same ends: [`EqConstraint::vertices`] and [`EqConstraint::from_vertices`] round-trip.
pub proof fn law_vertices_round_trip(e: EqConstraint, r: EqConstraint)
    ensures
        valid_ends(ends(e).0, ends(e).1),
        joins(ends(e).0, ends(e).1, r) ==> ends(r) == ends(e),
{
}

impl EqConstraint {
    /// An edge between two cells.
    pub fn any_to_any(from: Column<Any>, from_row: usize, to: Column<Any>, to_row: usize) -> (r: Self)
        ensures
            r == EqConstraint::AnyToAny(from, from_row, to, to_row),
    {
        EqConstraint::AnyToAny(from, from_row, to, to_row)
    }

    /// An edge between a fixed cell and a constant.
    pub fn fixed_to_const(from: Column<Fixed>, row: usize, f: Felt) -> (r: Self)
        ensures
            r == EqConstraint::FixedToConst(from, row, f),
    {
        EqConstraint::FixedToConst(from, row, f)
    }

    /// The first end of the edge.
    pub fn from(&self) -> (r: EqConstraintArg)
        ensures
            r@ == ends(*self).0,
    {
        match self {
            EqConstraint::AnyToAny(col, row, _, _) => EqConstraintArg::Any(*col, *row),
            EqConstraint::FixedToConst(col, row, _) => EqConstraintArg::Fixed(*col, *row),
        }
    }

    /// The second end of the edge.
    pub fn to(&self) -> (r: EqConstraintArg)
        ensures
            r@ == ends(*self).1,
    {
        match self {
            EqConstraint::AnyToAny(_, _, col, row) => EqConstraintArg::Any(*col, *row),
            EqConstraint::FixedToConst(_, _, f) => EqConstraintArg::Const(f.duplicate()),
        }
    }

    /// Both ends of the edge.
    pub fn vertices(&self) -> (r: (EqConstraintArg, EqConstraintArg))
        ensures
            (r.0@, r.1@) == ends(*self),
    {
        (self.from(), self.to())
    }

    /// The edge between two ends, which must be two cells, or a fixed cell and a constant in
    /// either order (in which case the edge goes from the cell to the constant).
    pub fn from_vertices(a: EqConstraintArg, b: EqConstraintArg) -> (r: Self)
        requires
            valid_ends(a@, b@),
        ensures
            joins(a@, b@, r),
    {
        match (a, b) {
            (EqConstraintArg::Const(f), EqConstraintArg::Fixed(col, row)) => EqConstraint::FixedToConst(col, row, f),
            (EqConstraintArg::Any(from, from_row), EqConstraintArg::Any(to, to_row)) => EqConstraint::AnyToAny(from, from_row, to, to_row),
            (EqConstraintArg::Fixed(col, row), EqConstraintArg::Const(f)) => EqConstraint::FixedToConst(col, row, f),
            (EqConstraintArg::Any(from, from_row), _) => EqConstraint::AnyToAny(from, from_row, from, from_row),
            (EqConstraintArg::Fixed(col, row), _) => EqConstraint::FixedToConst(col, row, Felt::zero()),
            (EqConstraintArg::Const(f), _) => EqConstraint::FixedToConst(Column { index: 0, column_type: Fixed }, 0, f),
        }
    }
}

/// Storage form of a node: a constant is the position of its value in the graph's storage.
#[derive(Debug, Clone, Copy)]
pub enum EqConstraintArgSto {
    /// Index to a finite field constant value.
    Const(usize),
    /// A cell of any type.
    Any(Column<Any>, usize),
    /// A fixed cell.
    Fixed(Column<Fixed>, usize),
}

/// The model of a node in storage form, given the storage.
pub open spec fn sto_model(s: EqConstraintArgSto, storage: Seq<Felt>) -> ArgModel {
    match s {
        EqConstraintArgSto::Const(i) => ArgModel::Const(storage[i as int]@),
        EqConstraintArgSto::Any(c, r) => ArgModel::Any(c, r),
        EqConstraintArgSto::Fixed(c, r) => ArgModel::Fixed(c, r),
    }
}

/// The node refers to a stored value.
pub open spec fn sto_valid(s: EqConstraintArgSto, storage: Seq<Felt>) -> bool {
    s matches EqConstraintArgSto::Const(i) ==> i < storage.len()
}

/// Equality of two nodes in storage form.
fn sto_eq(a: EqConstraintArgSto, b: EqConstraintArgSto) -> (r: bool)
    ensures
        r == (a == b),
{
    match (a, b) {
        (EqConstraintArgSto::Const(i), EqConstraintArgSto::Const(j)) => i == j,
        (EqConstraintArgSto::Any(c1, r1), EqConstraintArgSto::Any(c2, r2)) => c1.index == c2.index
            && c1.column_type == c2.column_type && r1 == r2,
        (EqConstraintArgSto::Fixed(c1, r1), EqConstraintArgSto::Fixed(c2, r2)) => {
            assert(c1.column_type == c2.column_type);
            c1.index == c2.index && r1 == r2
        },
        _ => false,
    }
}

/// The position of a value in the storage, if it is stored.
fn find_value(storage: &Vec<Felt>, f: &Felt) -> (r: Option<usize>)
    ensures
        r matches Some(i) ==> i < storage@.len() && storage@[i as int]@ == f@,
        r is None ==> forall|i: int| 0 <= i < storage@.len() ==> storage@[i]@ != f@,
{
    let mut i: usize = 0;
    while i < storage.len()
        invariant
            i <= storage@.len(),
            forall|k: int| 0 <= k < i ==> storage@[k]@ != f@,
        decreases storage@.len() - i,
    {
        if storage[i].equals(f) {
            return Some(i);
        }
        i = i + 1;
    }
    None
}

impl EqConstraintArg {
    /// The storage form, adding the value of a constant to the storage if it is not there.
    fn to_sto(self, storage: &mut Vec<Felt>) -> (r: EqConstraintArgSto)
        requires
            distinct_values(old(storage)@),
        ensures
            distinct_values(final(storage)@),
            stored_as(self@, old(storage)@, final(storage)@, r),
    {
        match self {
            EqConstraintArg::Const(f) => match find_value(storage, &f) {
                Some(idx) => EqConstraintArgSto::Const(idx),
                None => {
                    let idx = storage.len();
                    storage.push(f);
                    EqConstraintArgSto::Const(idx)
                },
            },
            EqConstraintArg::Any(column, row) => EqConstraintArgSto::Any(column, row),
            EqConstraintArg::Fixed(column, row) => EqConstraintArgSto::Fixed(column, row),
        }
    }

    /// The storage form, `None` when the value of a constant is not stored.
    fn to_sto_ro(&self, storage: &Vec<Felt>) -> (r: Option<EqConstraintArgSto>)
        ensures
            r matches Some(s) ==> sto_valid(s, storage@) && sto_model(s, storage@) == self@,
            r is None ==> self@ is Const && forall|i: int| 0 <= i < storage@.len() ==> storage@[i]@ != self@->Const_0,
    {
        match self {
            EqConstraintArg::Const(f) => match find_value(storage, f) {
                Some(idx) => Some(EqConstraintArgSto::Const(idx)),
                None => None,
            },
            EqConstraintArg::Any(column, row) => Some(EqConstraintArgSto::Any(*column, *row)),
            EqConstraintArg::Fixed(column, row) => Some(EqConstraintArgSto::Fixed(*column, *row)),
        }
    }
}

impl EqConstraintArgSto {
    /// The node that the storage form stands for.
    pub fn from_sto(self, storage: &[Felt]) -> (r: EqConstraintArg)
        requires
            sto_valid(self, storage@),
        ensures
            r@ == sto_model(self, storage@),
    {
        match self {
            EqConstraintArgSto::Const(idx) => EqConstraintArg::Const(storage[idx].duplicate()),
            EqConstraintArgSto::Any(column, row) => EqConstraintArg::Any(column, row),
            EqConstraintArgSto::Fixed(col, row) => EqConstraintArg::Fixed(col, row),
        }
    }
}

/// No value is stored twice.
pub open spec fn distinct_values(storage: Seq<Felt>) -> bool {
    forall|i: int, j: int| 0 <= i < j < storage.len() ==> storage[i]@ != storage[j]@
}

/// Graph of equality constraints between cells and finite field values.
#[derive(Debug)]
pub struct EqConstraintGraph {
    edges: Vec<(EqConstraintArgSto, EqConstraintArgSto)>,
    vertices: Vec<EqConstraintArgSto>,
    ff_storage: Vec<Felt>,
}

impl EqConstraintGraph {
    /// The edges of the graph, as pairs of models.
    pub closed spec fn edge_models(&self) -> Seq<(ArgModel, ArgModel)> {
        Seq::new(
            self.edges@.len(),
            |i: int| (sto_model(self.edges@[i].0, self.ff_storage@), sto_model(self.edges@[i].1, self.ff_storage@)),
        )
    }

    /// The vertices of the graph, as models.
    pub closed spec fn vertex_models(&self) -> Seq<ArgModel> {
        Seq::new(self.vertices@.len(), |i: int| sto_model(self.vertices@[i], self.ff_storage@))
    }

    /// The graph holds an edge between `a` and `b`, in either direction.
    pub open spec fn has_edge(&self, a: ArgModel, b: ArgModel) -> bool {
        self.edge_models().contains((a, b)) || self.edge_models().contains((b, a))
    }

    /// Every stored value is stored once; every node refers to a stored value; the edges have
    /// valid ends, no loop and no duplicate in either direction; the vertices are the ends of
    /// the edges, each once.
    #[verifier::type_invariant]
    spec fn wf(&self) -> bool {
        let st = self.ff_storage@;
        &&& distinct_values(st)
        &&& forall|i: int| #![trigger self.edges@[i]] 0 <= i < self.edges@.len() ==> sto_valid(self.edges@[i].0, st)
            && sto_valid(self.edges@[i].1, st) && self.edges@[i].0 != self.edges@[i].1
            && valid_ends(sto_model(self.edges@[i].0, st), sto_model(self.edges@[i].1, st))
        &&& forall|i: int, j: int| #![trigger self.edges@[i], self.edges@[j]] 0 <= i < j < self.edges@.len()
            ==> self.edges@[i] != self.edges@[j] && self.edges@[i] != (self.edges@[j].1, self.edges@[j].0)
        &&& forall|i: int| #![trigger self.vertices@[i]] 0 <= i < self.vertices@.len() ==> sto_valid(self.vertices@[i], st)
        &&& forall|i: int, j: int| #![trigger self.vertices@[i], self.vertices@[j]] 0 <= i < j < self.vertices@.len()
            ==> self.vertices@[i] != self.vertices@[j]
        &&& forall|v: EqConstraintArgSto| self.vertices@.contains(v) <==> exists|i: int| #![trigger self.edges@[i]]
            0 <= i < self.edges@.len() && (self.edges@[i].0 == v || self.edges@[i].1 == v)
    }

    /// The empty graph.
    pub fn new() -> (r: Self)
        ensures
            r.edge_models().len() == 0,
            r.vertex_models().len() == 0,
    {
        EqConstraintGraph { edges: Vec::new(), vertices: Vec::new(), ff_storage: Vec::new() }
    }
}

/// The edge with its constant, if any, at the second end.
pub open spec fn oriented(e: (ArgModel, ArgModel)) -> (ArgModel, ArgModel) {
    if e.0 is Const {
        (e.1, e.0)
    } else {
        e
    }
}

/// `sto` is the storage form of the node `a`, the storage going from `s0` to `s1`: the values
/// stored stay, the value of a constant is added when it is not there yet (and nothing is
/// added otherwise), and `sto` stands for `a` in the new storage.
pub open spec fn stored_as(a: ArgModel, s0: Seq<Felt>, s1: Seq<Felt>, sto: EqConstraintArgSto) -> bool {
    &&& forall|i: int| 0 <= i < s0.len() ==> s1[i] == s0[i]
    &&& s1.len() == s0.len() + if a matches ArgModel::Const(v) && forall|i: int| 0 <= i < s0.len() ==> s0[i]@ != v { 1int } else { 0int }
    &&& sto_valid(sto, s1)
    &&& sto_model(sto, s1) == a
}

/// The storage form of a node round-trips: it keeps standing for the node while the storage
/// grows, and when no value is stored twice it is the only storage form that does, so finding
/// the node again in the storage gives it back. The storage is left as it was unless the node
/// is a constant whose value was not stored yet.
pub proof fn law_storage_form(a: ArgModel, s0: Seq<Felt>, s1: Seq<Felt>, s2: Seq<Felt>, sto: EqConstraintArgSto, other: EqConstraintArgSto)
    requires
        stored_as(a, s0, s1, sto),
        s1.len() <= s2.len(),
        forall|i: int| 0 <= i < s1.len() ==> s2[i] == s1[i],
    ensures
        sto_valid(sto, s2),
        sto_model(sto, s2) == a,
        distinct_values(s2) && sto_valid(other, s2) && sto_model(other, s2) == a ==> other == sto,
        !(a matches ArgModel::Const(v) && forall|i: int| 0 <= i < s0.len() ==> s0[i]@ != v) ==> s1 == s0,
{
    if !(a matches ArgModel::Const(v) && forall|i: int| 0 <= i < s0.len() ==> s0[i]@ != v) {
        assert(s1 =~= s0);
    }
    lemma_sto_stable(sto, s1, s2);
    if distinct_values(s2) && sto_valid(other, s2) && sto_model(other, s2) == a {
        lemma_sto_injective(other, sto, s2);
    }
}

/// Two valid nodes with the same model are the same node, when no value is stored twice.
proof fn lemma_sto_injective(x: EqConstraintArgSto, y: EqConstraintArgSto, st: Seq<Felt>)
    requires
        distinct_values(st),
        sto_valid(x, st),
        sto_valid(y, st),
        sto_model(x, st) == sto_model(y, st),
    ensures
        x == y,
{
    if let (EqConstraintArgSto::Const(i), EqConstraintArgSto::Const(j)) = (x, y) {
        if i < j {
            assert(st[i as int]@ != st[j as int]@);
        } else if j < i {
            assert(st[j as int]@ != st[i as int]@);
        }
    }
}

/// A valid node keeps its model when values are appended to the storage.
proof fn lemma_sto_stable(x: EqConstraintArgSto, st: Seq<Felt>, st2: Seq<Felt>)
    requires
        sto_valid(x, st),
        st.len() <= st2.len(),
        forall|i: int| 0 <= i < st.len() ==> st2[i] == st[i],
    ensures
        sto_valid(x, st2),
        sto_model(x, st2) == sto_model(x, st),
{
}

impl EqConstraintGraph {
    /// Whether the graph holds the edge between the two nodes, in either direction.
    fn find_edge(&self, a: EqConstraintArgSto, b: EqConstraintArgSto) -> (r: bool)
        ensures
            r == exists|i: int| #![trigger self.edges@[i]] 0 <= i < self.edges@.len() && (self.edges@[i] == (a, b)
                || self.edges@[i] == (b, a)),
    {
        let mut i: usize = 0;
        while i < self.edges.len()
            invariant
                i <= self.edges@.len(),
                forall|k: int| #![trigger self.edges@[k]] 0 <= k < i ==> !(self.edges@[k] == (a, b) || self.edges@[k] == (b, a)),
            decreases self.edges@.len() - i,
        {
            let (x, y) = self.edges[i];
            if (sto_eq(x, a) && sto_eq(y, b)) || (sto_eq(x, b) && sto_eq(y, a)) {
                assert(self.edges@[i as int] == (x, y));
                return true;
            }
            i = i + 1;
        }
        false
    }

    /// Returns true if the graph contains the edge, in either direction.
    pub fn contains(&self, edge: &EqConstraint) -> (r: bool)
        ensures
            r == self.has_edge(ends(*edge).0, ends(*edge).1),
    {
        proof {
            use_type_invariant(self);
        }
        let (from, to) = edge.vertices();
        let ghost (a, b) = ends(*edge);
        let ghost st = self.ff_storage@;
        let ghost em = self.edge_models();
        match (from.to_sto_ro(&self.ff_storage), to.to_sto_ro(&self.ff_storage)) {
            (Some(sf), Some(stt)) => {
                let r = self.find_edge(sf, stt);
                proof {
                    if r {
                        let i = choose|i: int| #![trigger self.edges@[i]] 0 <= i < self.edges@.len() && (self.edges@[i] == (sf, stt)
                            || self.edges@[i] == (stt, sf));
                        assert(em[i] == (sto_model(self.edges@[i].0, st), sto_model(self.edges@[i].1, st)));
                    } else {
                        if em.contains((a, b)) {
                            let i = choose|i: int| 0 <= i < em.len() && em[i] == (a, b);
                            assert(em[i] == (sto_model(self.edges@[i].0, st), sto_model(self.edges@[i].1, st)));
                            lemma_sto_injective(self.edges@[i].0, sf, st);
                            lemma_sto_injective(self.edges@[i].1, stt, st);
                        }
                        if em.contains((b, a)) {
                            let i = choose|i: int| 0 <= i < em.len() && em[i] == (b, a);
                            assert(em[i] == (sto_model(self.edges@[i].0, st), sto_model(self.edges@[i].1, st)));
                            lemma_sto_injective(self.edges@[i].0, stt, st);
                            lemma_sto_injective(self.edges@[i].1, sf, st);
                        }
                    }
                }
                r
            },
            (None, _) => {
                proof {
                    self.lemma_no_edge_with_unstored(a, b);
                }
                false
            },
            (_, None) => {
                proof {
                    self.lemma_no_edge_with_unstored(b, a);
                }
                false
            },
        }
    }

    /// A constant whose value is not stored is the end of no edge.
    proof fn lemma_no_edge_with_unstored(&self, a: ArgModel, b: ArgModel)
        requires
            self.wf(),
            a is Const,
            forall|i: int| 0 <= i < self.ff_storage@.len() ==> self.ff_storage@[i]@ != a->Const_0,
        ensures
            !self.has_edge(a, b),
    {
        let st = self.ff_storage@;
        let em = self.edge_models();
        if em.contains((a, b)) {
            let i = choose|i: int| 0 <= i < em.len() && em[i] == (a, b);
            assert(self.edges@[i].0 == self.edges@[i].0);
            assert(em[i] == (sto_model(self.edges@[i].0, st), sto_model(self.edges@[i].1, st)));
        }
        if em.contains((b, a)) {
            let i = choose|i: int| 0 <= i < em.len() && em[i] == (b, a);
            assert(self.edges@[i].0 == self.edges@[i].0);
            assert(em[i] == (sto_model(self.edges@[i].0, st), sto_model(self.edges@[i].1, st)));
        }
    }

    /// Adds a new edge to the graph, unless it holds it already in either direction. The two
    /// ends must differ (a loop is refused).
    pub fn add(&mut self, edge: EqConstraint)
        requires
            ends(edge).0 != ends(edge).1,
        ensures
            final(self).has_edge(ends(edge).0, ends(edge).1),
            old(self).has_edge(ends(edge).0, ends(edge).1) ==> final(self).edge_models() == old(self).edge_models(),
            !old(self).has_edge(ends(edge).0, ends(edge).1) ==> final(self).edge_models() == old(self).edge_models().push(ends(edge)),
            forall|v: ArgModel| final(self).vertex_models().contains(v) <==> (old(self).vertex_models().contains(v)
                || v == ends(edge).0 || v == ends(edge).1),
    {
        proof {
            use_type_invariant(&*self);
        }
        let ghost (a, b) = ends(edge);
        let ghost old_em = self.edge_models();
        let ghost old_vm = self.vertex_models();
        let ghost had = self.has_edge(a, b);
        let (from, to) = edge.vertices();
        let mut g = EqConstraintGraph::new();
        std::mem::swap(&mut g, self);
        proof {
            use_type_invariant(&g);
        }
        let EqConstraintGraph { edges, vertices, ff_storage } = g;
        let mut storage = ff_storage;
        let ghost st0 = storage@;
        let sf = from.to_sto(&mut storage);
        let ghost st1 = storage@;
        let stt = to.to_sto(&mut storage);
        let ghost st = storage@;
        proof {
            lemma_sto_stable(sf, st1, st);
            assert forall|i: int| #![trigger edges@[i]] 0 <= i < edges@.len() implies sto_valid(edges@[i].0, st)
                && sto_valid(edges@[i].1, st) && sto_model(edges@[i].0, st) == sto_model(edges@[i].0, st0)
                && sto_model(edges@[i].1, st) == sto_model(edges@[i].1, st0) by {
                lemma_sto_stable(edges@[i].0, st0, st);
                lemma_sto_stable(edges@[i].1, st0, st);
            }
            assert forall|i: int| #![trigger vertices@[i]] 0 <= i < vertices@.len() implies sto_valid(vertices@[i], st)
                && sto_model(vertices@[i], st) == sto_model(vertices@[i], st0) by {
                lemma_sto_stable(vertices@[i], st0, st);
            }
            if sf == stt {
                assert(a == b);
            }
        }
        *self = EqConstraintGraph { edges, vertices, ff_storage: storage };
        proof {
            use_type_invariant(&*self);
            assert(self.edge_models() =~= old_em);
            assert(self.vertex_models() =~= old_vm);
        }
        let present = self.find_edge(sf, stt);
        proof {
            let em = self.edge_models();
            if present {
                let i = choose|i: int| #![trigger self.edges@[i]] 0 <= i < self.edges@.len() && (self.edges@[i] == (sf, stt)
                    || self.edges@[i] == (stt, sf));
                assert(em[i] == (sto_model(self.edges@[i].0, st), sto_model(self.edges@[i].1, st)));
            } else {
                if em.contains((a, b)) {
                    let i = choose|i: int| 0 <= i < em.len() && em[i] == (a, b);
                    assert(em[i] == (sto_model(self.edges@[i].0, st), sto_model(self.edges@[i].1, st)));
                    lemma_sto_injective(self.edges@[i].0, sf, st);
                    lemma_sto_injective(self.edges@[i].1, stt, st);
                }
                if em.contains((b, a)) {
                    let i = choose|i: int| 0 <= i < em.len() && em[i] == (b, a);
                    assert(em[i] == (sto_model(self.edges@[i].0, st), sto_model(self.edges@[i].1, st)));
                    lemma_sto_injective(self.edges@[i].0, stt, st);
                    lemma_sto_injective(self.edges@[i].1, sf, st);
                }
            }
            assert(present == had);
        }
        if !present {
            let mut g = EqConstraintGraph::new();
            std::mem::swap(&mut g, self);
            proof {
                use_type_invariant(&g);
            }
            let EqConstraintGraph { edges, vertices, ff_storage } = g;
            let mut edges = edges;
            let mut vertices = vertices;
            let storage = ff_storage;
            let ghost ve0 = vertices@;
            insert_vertex(&mut vertices, sf);
            insert_vertex(&mut vertices, stt);
            let ghost e0 = edges@;
            edges.push((sf, stt));
            proof {
                assert(valid_ends(a, b)) by {
                    match edge {
                        EqConstraint::AnyToAny(..) => {},
                        EqConstraint::FixedToConst(..) => {},
                    }
                }
                assert(edges@[e0.len() as int] == (sf, stt));
                assert forall|v: EqConstraintArgSto| vertices@.contains(v) <==> exists|i: int| #![trigger edges@[i]]
                    0 <= i < edges@.len() && (edges@[i].0 == v || edges@[i].1 == v) by {
                    if vertices@.contains(v) {
                        if ve0.contains(v) {
                            let k = choose|i: int| #![trigger e0[i]] 0 <= i < e0.len() && (e0[i].0 == v || e0[i].1 == v);
                            assert(edges@[k] == e0[k]);
                        } else {
                            assert(v == sf || v == stt);
                            assert(edges@[e0.len() as int].0 == v || edges@[e0.len() as int].1 == v);
                        }
                    }
                    if exists|i: int| #![trigger edges@[i]] 0 <= i < edges@.len() && (edges@[i].0 == v || edges@[i].1 == v) {
                        let k = choose|i: int| #![trigger edges@[i]] 0 <= i < edges@.len() && (edges@[i].0 == v || edges@[i].1 == v);
                        if k < e0.len() {
                            assert(e0[k] == edges@[k]);
                            assert(e0[k].0 == v || e0[k].1 == v);
                            assert(ve0.contains(v));
                        } else {
                            assert(v == sf || v == stt);
                        }
                    }
                }
                assert forall|i: int, j: int| #![trigger edges@[i], edges@[j]] 0 <= i < j < edges@.len()
                    implies edges@[i] != edges@[j] && edges@[i] != (edges@[j].1, edges@[j].0) by {
                    if j == e0.len() {
                        assert(edges@[i] == e0[i]);
                    } else {
                        assert(edges@[i] == e0[i] && edges@[j] == e0[j]);
                    }
                }
            }
            proof {
                assert(sf != stt);
                assert(sto_valid(sf, st) && sto_valid(stt, st));
                assert forall|i: int| #![trigger vertices@[i]] 0 <= i < vertices@.len() implies sto_valid(vertices@[i], st) by {
                    if !ve0.contains(vertices@[i]) {
                        assert(vertices@.contains(vertices@[i]));
                    } else {
                        let k = choose|k: int| 0 <= k < ve0.len() && ve0[k] == vertices@[i];
                        assert(sto_valid(ve0[k], st));
                    }
                }
                assert forall|i: int| #![trigger edges@[i]] 0 <= i < edges@.len() implies sto_valid(edges@[i].0, st)
                    && sto_valid(edges@[i].1, st) && edges@[i].0 != edges@[i].1
                    && valid_ends(sto_model(edges@[i].0, st), sto_model(edges@[i].1, st)) by {
                    if i < e0.len() {
                        assert(edges@[i] == e0[i]);
                    }
                }
            }
            *self = EqConstraintGraph { edges, vertices, ff_storage: storage };
            proof {
                assert(self.edge_models() =~= old_em.push((a, b)));
                let vm = self.vertex_models();
                assert forall|v: ArgModel| vm.contains(v) <==> (old_vm.contains(v) || v == a || v == b) by {
                    if vm.contains(v) {
                        let k = choose|k: int| 0 <= k < vm.len() && vm[k] == v;
                        let s = self.vertices@[k];
                        if ve0.contains(s) {
                            let k0 = choose|k0: int| 0 <= k0 < ve0.len() && ve0[k0] == s;
                            assert(old_vm[k0] == v);
                        } else {
                            assert(s == sf || s == stt);
                        }
                    }
                    if old_vm.contains(v) {
                        let k0 = choose|k0: int| 0 <= k0 < old_vm.len() && old_vm[k0] == v;
                        assert(ve0.contains(ve0[k0]));
                        assert(self.vertices@.contains(ve0[k0]));
                        let k = choose|k: int| 0 <= k < self.vertices@.len() && self.vertices@[k] == ve0[k0];
                        assert(vm[k] == v);
                    }
                    if v == a {
                        assert(self.vertices@.contains(sf));
                        let k = choose|k: int| 0 <= k < self.vertices@.len() && self.vertices@[k] == sf;
                        assert(vm[k] == v);
                    }
                    if v == b {
                        assert(self.vertices@.contains(stt));
                        let k = choose|k: int| 0 <= k < self.vertices@.len() && self.vertices@[k] == stt;
                        assert(vm[k] == v);
                    }
                }
                assert(self.edge_models()[self.edge_models().len() - 1] == (a, b));
            }
        } else {
            proof {
                let vm = self.vertex_models();
                assert forall|v: ArgModel| vm.contains(v) <==> (old_vm.contains(v) || v == a || v == b) by {
                    let i = choose|i: int| #![trigger self.edges@[i]] 0 <= i < self.edges@.len() && (self.edges@[i] == (sf, stt)
                        || self.edges@[i] == (stt, sf));
                    assert(self.edges@[i].0 == sf || self.edges@[i].1 == sf);
                    assert(self.edges@[i].0 == stt || self.edges@[i].1 == stt);
                    assert(self.vertices@.contains(sf));
                    assert(self.vertices@.contains(stt));
                    if v == a {
                        let k = choose|k: int| 0 <= k < self.vertices@.len() && self.vertices@[k] == sf;
                        assert(vm[k] == v);
                    }
                    if v == b {
                        let k = choose|k: int| 0 <= k < self.vertices@.len() && self.vertices@[k] == stt;
                        assert(vm[k] == v);
                    }
                }
            }
        }
    }

    /// The edges of the graph, in the order they were added; an edge between a constant and a
    /// fixed cell goes from the cell to the constant.
    pub fn edges(&self) -> (r: Vec<EqConstraint>)
        ensures
            r@.len() == self.edge_models().len(),
            forall|i: int| 0 <= i < r@.len() ==> ends(#[trigger] r@[i]) == oriented(self.edge_models()[i]),
    {
        proof {
            use_type_invariant(self);
        }
        let mut out: Vec<EqConstraint> = Vec::new();
        let mut i: usize = 0;
        while i < self.edges.len()
            invariant
                self.wf(),
                i <= self.edges@.len(),
                out@.len() == i,
                forall|k: int| 0 <= k < i ==> ends(#[trigger] out@[k]) == oriented(self.edge_models()[k]),
            decreases self.edges@.len() - i,
        {
            let (f, t) = self.edges[i];
            assert(self.edges@[i as int] == (f, t));
            let a = f.from_sto(self.ff_storage.as_slice());
            let b = t.from_sto(self.ff_storage.as_slice());
            out.push(EqConstraint::from_vertices(a, b));
            i = i + 1;
        }
        out
    }

    /// The vertices of the graph: the ends of its edges, each once, in the order they were
    /// first added.
    pub fn vertices(&self) -> (r: Vec<EqConstraintArg>)
        ensures
            r@.len() == self.vertex_models().len(),
            forall|i: int| 0 <= i < r@.len() ==> (#[trigger] r@[i])@ == self.vertex_models()[i],
            self.vertex_models().no_duplicates(),
    {
        proof {
            use_type_invariant(self);
            let vm = self.vertex_models();
            let st = self.ff_storage@;
            assert forall|i: int, j: int| 0 <= i < vm.len() && 0 <= j < vm.len() && i != j implies vm[i] != vm[j] by {
                if vm[i] == vm[j] {
                    lemma_sto_injective(self.vertices@[i], self.vertices@[j], st);
                    if i < j {
                        assert(self.vertices@[i] != self.vertices@[j]);
                    } else {
                        assert(self.vertices@[j] != self.vertices@[i]);
                    }
                }
            }
        }
        let mut out: Vec<EqConstraintArg> = Vec::new();
        let mut i: usize = 0;
        while i < self.vertices.len()
            invariant
                self.wf(),
                i <= self.vertices@.len(),
                out@.len() == i,
                forall|k: int| 0 <= k < i ==> (#[trigger] out@[k])@ == self.vertex_models()[k],
            decreases self.vertices@.len() - i,
        {
            let v = self.vertices[i];
            assert(self.vertices@[i as int] == v);
            out.push(v.from_sto(self.ff_storage.as_slice()));
            i = i + 1;
        }
        out
    }
}

/// Adds the node to the list unless it is there already.
fn insert_vertex(vs: &mut Vec<EqConstraintArgSto>, v: EqConstraintArgSto)
    requires
        forall|i: int, j: int| #![trigger old(vs)@[i], old(vs)@[j]] 0 <= i < j < old(vs)@.len() ==> old(vs)@[i] != old(vs)@[j],
    ensures
        forall|i: int, j: int| #![trigger final(vs)@[i], final(vs)@[j]] 0 <= i < j < final(vs)@.len() ==> final(vs)@[i] != final(vs)@[j],
        forall|x: EqConstraintArgSto| final(vs)@.contains(x) <==> (old(vs)@.contains(x) || x == v),
        final(vs)@.len() >= old(vs)@.len(),
        forall|i: int| 0 <= i < old(vs)@.len() ==> final(vs)@[i] == old(vs)@[i],
{
    let mut i: usize = 0;
    let mut found = false;
    while i < vs.len() && !found
        invariant
            vs@ == old(vs)@,
            i <= vs@.len(),
            !found ==> forall|k: int| 0 <= k < i ==> vs@[k] != v,
            found ==> vs@.contains(v),
        decreases vs@.len() - i,
    {
        if sto_eq(vs[i], v) {
            found = true;
            i = vs.len();
        } else {
            i = i + 1;
        }
    }
    if found {
        return;
    }
    let ghost before = vs@;
    vs.push(v);
    proof {
        assert forall|x: EqConstraintArgSto| vs@.contains(x) <==> (before.contains(x) || x == v) by {
            if vs@.contains(x) {
                let k = choose|k: int| 0 <= k < vs@.len() && vs@[k] == x;
                if k < before.len() {
                    assert(before[k] == x);
                }
            }
            if before.contains(x) {
                let k = choose|k: int| 0 <= k < before.len() && before[k] == x;
                assert(vs@[k] == x);
            }
            if x == v {
                assert(vs@[before.len() as int] == x);
            }
        }
    }
}

impl Default for EqConstraintGraph {
    fn default() -> (r: Self)
        ensures
            r.edge_models().len() == 0,
            r.vertex_models().len() == 0,
    {
        EqConstraintGraph::new()
    }
}

} // verus!

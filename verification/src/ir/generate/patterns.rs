//! The default rewriting of gates into constraints.
use vstd::prelude::*;
use crate::felt::Felt;
use crate::ir::compare::CmpOp;
use crate::ir::stmt::{Constraint, IRStmt, StmtSeq};
use crate::poly::{Expression, Poly, Selector};
use crate::synthesis::regions::data::RegionData;

verus! {

/// The selectors that occur in the expression, from left to right.
pub open spec fn selectors_in(e: Poly) -> Seq<Selector>
    decreases e,
{
    match e {
        Poly::Selector(s) => seq![s],
        Poly::Negated(x) => selectors_in(*x),
        Poly::Sum(x, y) => selectors_in(*x) + selectors_in(*y),
        Poly::Product(x, y) => selectors_in(*x) + selectors_in(*y),
        Poly::Scaled(x, _) => selectors_in(*x),
        _ => Seq::empty(),
    }
}

/// The selectors that occur in the expression, as [`selectors_in`] says.
pub fn find_selectors(e: &Expression) -> (r: Vec<Selector>)
    ensures
        r@ == selectors_in(e@),
    decreases e,
{
    match e {
        Expression::Selector(s) => vec![*s],
        Expression::Negated(x) => find_selectors(&**x),
        Expression::Sum(x, y) | Expression::Product(x, y) => {
            let mut a = find_selectors(&**x);
            let mut b = find_selectors(&**y);
            a.append(&mut b);
            a
        },
        Expression::Scaled(x, _) => find_selectors(&**x),
        _ => Vec::new(),
    }
}

/// Whether the polynomial yields a constraint at the row: always, unless disabled gates are
/// ignored and none of its selectors is enabled at the row (a polynomial without selectors
/// counts as disabled).
pub open spec fn poly_kept<'r>(region: RegionData<'r>, ignore_disabled: bool, row: usize, e: Poly) -> bool {
    !ignore_disabled || exists|i: int| 0 <= i < selectors_in(e).len() && region.data().enabled(#[trigger] selectors_in(e)[i], row)
}

/// The polynomials of a gate, by position, that yield a constraint at the row, among the
/// first `k`.
pub open spec fn row_pairs<'r>(region: RegionData<'r>, ignore_disabled: bool, polys: Seq<Poly>, row: usize, k: int) -> Seq<(usize, int)>
    decreases k,
{
    if k <= 0 {
        Seq::empty()
    } else {
        let rest = row_pairs(region, ignore_disabled, polys, row, k - 1);
        if poly_kept(region, ignore_disabled, row, polys[k - 1]) {
            rest.push((row, k - 1))
        } else {
            rest
        }
    }
}

/// The row and polynomial of each constraint, for the `n` rows from `start` on, row by row.
pub open spec fn gate_pairs<'r>(region: RegionData<'r>, ignore_disabled: bool, polys: Seq<Poly>, start: int, n: int) -> Seq<(usize, int)>
    decreases n,
{
    if n <= 0 {
        Seq::empty()
    } else {
        gate_pairs(region, ignore_disabled, polys, start, n - 1)
            + row_pairs(region, ignore_disabled, polys, (start + n - 1) as usize, polys.len() as int)
    }
}

/// The row and polynomial of each constraint for the rows of the region.
pub open spec fn region_pairs<'r>(region: RegionData<'r>, ignore_disabled: bool, polys: Seq<Poly>) -> Seq<(usize, int)> {
    match region.data().spec_rows() {
        Some((s, e)) => gate_pairs(region, ignore_disabled, polys, s as int, e - s + 1),
        None => Seq::empty(),
    }
}

/// Whether the statement is the constraint that the polynomial at the row equals zero.
pub open spec fn zero_constraint(s: IRStmt<(usize, Expression)>, row: usize, e: Poly) -> bool {
    &&& s matches IRStmt::Constraint(c)
    &&& c.op == CmpOp::Eq
    &&& c.lhs.0 == row
    &&& c.lhs.1@ == e
    &&& c.rhs.0 == row
    &&& c.rhs.1@ == Poly::Constant(0)
}

/// Default gate pattern that transforms each polynomial in a gate into an equality statement
/// for each row in the region.
#[derive(Debug)]
pub struct FallbackGateRewriter {
    ignore_disabled_gates: bool,
}

impl FallbackGateRewriter {
    /// Whether the polynomials whose selectors are all disabled at a row are left out.
    pub closed spec fn spec_ignore_disabled_gates(&self) -> bool {
        self.ignore_disabled_gates
    }

    /// The pattern, leaving out disabled polynomials if asked.
    pub fn new(ignore_disabled_gates: bool) -> (r: Self)
        ensures
            r.spec_ignore_disabled_gates() == ignore_disabled_gates,
    {
        FallbackGateRewriter { ignore_disabled_gates }
    }

    /// Whether one of the selectors is enabled at the row.
    fn any_enabled(region: RegionData<'_>, selectors: &Vec<Selector>, row: usize) -> (r: bool)
        ensures
            r == exists|i: int| 0 <= i < selectors@.len() && region.data().enabled(#[trigger] selectors@[i], row),
    {
        let enabled = region.selectors_enabled_for_row(row);
        let mut i: usize = 0;
        while i < selectors.len()
            invariant
                i <= selectors@.len(),
                forall|s: Selector| enabled@.contains(s) <==> region.data().enabled(s, row),
                forall|j: int| 0 <= j < i ==> !region.data().enabled(#[trigger] selectors@[j], row),
            decreases selectors@.len() - i,
        {
            let mut k: usize = 0;
            while k < enabled.len()
                invariant
                    k <= enabled@.len(),
                    i < selectors@.len(),
                    forall|s: Selector| enabled@.contains(s) <==> region.data().enabled(s, row),
                    forall|j: int| 0 <= j < k ==> enabled@[j] != selectors@[i as int],
                decreases enabled@.len() - k,
            {
                if enabled[k] == selectors[i] {
                    proof {
                        assert(enabled@.contains(selectors@[i as int]));
                    }
                    return true;
                }
                k = k + 1;
            }
            proof {
                assert(!enabled@.contains(selectors@[i as int]));
            }
            i = i + 1;
        }
        false
    }

    /// For each row of the region, in order, and each polynomial of a gate, in order, the
    /// constraint that the polynomial at the row equals zero; a polynomial whose selectors
    /// are all disabled at the row is left out when disabled gates are ignored (see
    /// [`region_pairs`]). The constraints are gathered in a sequence.
    pub fn rewrite_gate(&self, polys: &Vec<Expression>, region: RegionData<'_>) -> (r: IRStmt<(usize, Expression)>)
        requires
            region.data().spec_rows() matches Some((_, e)) ==> e < usize::MAX,
        ensures
            ({
                let pairs = region_pairs(region, self.spec_ignore_disabled_gates(), polys@.map_values(|e: Expression| e@));
                &&& r matches IRStmt::Sequence(q)
                &&& q.0@.len() == pairs.len()
                &&& forall|i: int| 0 <= i < pairs.len() ==> zero_constraint(#[trigger] q.0@[i], pairs[i].0, polys@[pairs[i].1]@)
            }),
    {
        let ghost ps = polys@.map_values(|e: Expression| e@);
        let mut out: Vec<IRStmt<(usize, Expression)>> = Vec::new();
        let rows = region.rows();
        let ghost start = rows.start as int;
        let mut row = rows.start;
        assert(ps.len() == polys@.len());
        while row < rows.end
            invariant
                ps == polys@.map_values(|e: Expression| e@),
                ps.len() == polys@.len(),
                rows == (match region.data().spec_rows() {
                    Some((s, e)) => (s..(e + 1) as usize),
                    None => (0usize..0usize),
                }),
                rows.start <= row <= rows.end,
                start == rows.start,
                forall|i: int| 0 <= i < gate_pairs(region, self.ignore_disabled_gates, ps, start, row - start).len()
                    ==> 0 <= #[trigger] gate_pairs(region, self.ignore_disabled_gates, ps, start, row - start)[i].1 < ps.len(),
                ({
                    let pairs = gate_pairs(region, self.ignore_disabled_gates, ps, start, row - start);
                    &&& out@.len() == pairs.len()
                    &&& forall|i: int| 0 <= i < pairs.len() ==> zero_constraint(#[trigger] out@[i], pairs[i].0, polys@[pairs[i].1]@)
                }),
            decreases rows.end - row,
        {
            let ghost before = out@;
            let ghost prev = gate_pairs(region, self.ignore_disabled_gates, ps, start, row - start);
            assert(forall|i: int| 0 <= i < prev.len() ==> zero_constraint(#[trigger] before[i], prev[i].0, polys@[prev[i].1]@));
            assert(before.len() == prev.len());
            let mut k: usize = 0;
            while k < polys.len()
                invariant
                    k <= polys@.len(),
                    ps == polys@.map_values(|e: Expression| e@),
                    ps.len() == polys@.len(),
                    row >= rows.start,
                    start == rows.start,
                    prev == gate_pairs(region, self.ignore_disabled_gates, ps, start, row - start),
                    out@.len() == before.len() + row_pairs(region, self.ignore_disabled_gates, ps, row, k as int).len(),
                    forall|i: int| 0 <= i < before.len() ==> out@[i] == before[i],
                    ({
                        let rp = row_pairs(region, self.ignore_disabled_gates, ps, row, k as int);
                        forall|i: int| 0 <= i < rp.len() ==> zero_constraint(#[trigger] out@[before.len() + i], rp[i].0, polys@[rp[i].1]@)
                    }),
                    forall|i: int| 0 <= i < row_pairs(region, self.ignore_disabled_gates, ps, row, k as int).len()
                        ==> 0 <= #[trigger] row_pairs(region, self.ignore_disabled_gates, ps, row, k as int)[i].1 < k,
                decreases polys@.len() - k,
            {
                let e = &polys[k];
                let keep = if self.ignore_disabled_gates {
                    let sels = find_selectors(e);
                    Self::any_enabled(region, &sels, row)
                } else {
                    true
                };
                assert(ps[k as int] == polys@[k as int]@);
                let ghost rp = row_pairs(region, self.ignore_disabled_gates, ps, row, k as int);
                if keep {
                    let lhs = (row, e.clone());
                    let rhs = (row, Expression::Constant(Felt::zero()));
                    out.push(IRStmt::Constraint(Constraint { op: CmpOp::Eq, lhs, rhs }));
                    proof {
                        let rp2 = row_pairs(region, self.ignore_disabled_gates, ps, row, k + 1);
                        assert(rp2 == rp.push((row, k as int)));
                        assert forall|i: int| 0 <= i < rp2.len() implies zero_constraint(#[trigger] out@[before.len() + i], rp2[i].0, polys@[rp2[i].1]@) by {
                            if i < rp.len() {
                                assert(rp2[i] == rp[i]);
                            }
                        }
                    }
                }
                k = k + 1;
            }
            proof {
                let cur = gate_pairs(region, self.ignore_disabled_gates, ps, start, row + 1 - start);
                let rp = row_pairs(region, self.ignore_disabled_gates, ps, row, ps.len() as int);
                assert(cur == prev + rp);
                assert forall|i: int| 0 <= i < cur.len() implies 0 <= #[trigger] cur[i].1 < ps.len() by {
                    if i < prev.len() {
                        assert(cur[i] == prev[i]);
                    } else {
                        assert(cur[i] == rp[i - prev.len()]);
                    }
                }
                assert forall|i: int| 0 <= i < cur.len() implies zero_constraint(#[trigger] out@[i], cur[i].0, polys@[cur[i].1]@) by {
                    if i < prev.len() {
                        assert(cur[i] == prev[i]);
                        assert(out@[i] == before[i]);
                        assert(zero_constraint(before[i], prev[i].0, polys@[prev[i].1]@));
                    } else {
                        let j = i - prev.len();
                        assert(cur[i] == rp[j]);
                        assert(before.len() + j == i);
                        assert(zero_constraint(out@[before.len() + j], rp[j].0, polys@[rp[j].1]@));
                    }
                }
            }
            row = row + 1;
        }
        proof {
            let pairs = region_pairs(region, self.ignore_disabled_gates, ps);
            match region.data().spec_rows() {
                Some((s, e)) => {
                    assert(row - start == e - s + 1);
                },
                None => {
                    assert(row - start == 0);
                },
            }
        }
        IRStmt::Sequence(StmtSeq(out))
    }
}

} // verus!

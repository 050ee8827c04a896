use halo2_frontend::ir::compare::CmpOp;
use halo2_frontend::ir::generate::patterns::{find_selectors, FallbackGateRewriter};
use halo2_frontend::ir::stmt::IRStmt;
use halo2_frontend::poly::{Expression, Query, Rotation, Selector};
use halo2_frontend::synthesis::regions::data::{RegionData, RegionDataImpl};
use halo2_frontend::synthesis::regions::RegionIndex;
use halo2_frontend::table::{Any, Column};

fn advice(col: usize) -> Expression {
    Expression::Advice(Query { column_index: col, rotation: Rotation(0) })
}

fn constraints(s: IRStmt<(usize, Expression)>) -> Vec<(usize, Expression)> {
    let mut out = vec![];
    let mut it = s.into_iter();
    while let Some(stmt) = it.next() {
        match stmt {
            IRStmt::Constraint(c) => {
                assert_eq!(c.op, CmpOp::Eq);
                assert_eq!(c.rhs, (c.lhs.0, Expression::constant(0)));
                out.push(c.lhs);
            }
            _ => panic!("only constraints expected"),
        }
    }
    out
}

#[test]
fn fallback_constrains_each_polynomial_at_each_row() {
    let s = Selector { index: 0, simple: true };
    let mut data = RegionDataImpl::new("r".to_string(), RegionIndex(0));
    data.update_extent(Column::new(0, Any::Advice), 2);
    data.update_extent(Column::new(0, Any::Advice), 3);
    data.enable_selector(s, 2);
    let gated = Expression::Selector(s).mul(advice(0));
    let polys = vec![gated.clone(), advice(1)];
    assert_eq!(find_selectors(&gated), vec![s]);
    assert_eq!(find_selectors(&advice(1)), vec![]);

    let all = FallbackGateRewriter::new(false).rewrite_gate(&polys, RegionData::new(&data));
    assert_eq!(
        constraints(all),
        vec![(2, gated.clone()), (2, advice(1)), (3, gated.clone()), (3, advice(1))]
    );
    let enabled = FallbackGateRewriter::new(true).rewrite_gate(&polys, RegionData::new(&data));
    assert_eq!(constraints(enabled), vec![(2, gated)]);

    let empty = RegionDataImpl::new("empty".to_string(), RegionIndex(1));
    let none = FallbackGateRewriter::new(false).rewrite_gate(&polys, RegionData::new(&empty));
    assert!(none.is_empty());
}

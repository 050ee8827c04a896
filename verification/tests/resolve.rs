use halo2_frontend::felt::Felt;
use halo2_frontend::func_io::FuncIO;
use halo2_frontend::io::CircuitIO;
use halo2_frontend::ir::aexpr::IRAexpr;
use halo2_frontend::ir::scoped::{Scope, ScopedExpression};
use halo2_frontend::poly::{Expression, Query, Rotation, Selector};
use halo2_frontend::resolvers::{
    Advice, Bool, Fixed, Instance, QueryResolver, ResolveError, ResolvedQuery, ResolvedSelector,
    SelectorResolver,
};
use halo2_frontend::synthesis::regions::data::{RegionData, RegionDataImpl};
use halo2_frontend::synthesis::regions::fixed::FixedData;
use halo2_frontend::synthesis::regions::region_row::{RegionRow, RowMode};
use halo2_frontend::synthesis::regions::row::Row;
use halo2_frontend::synthesis::regions::RegionIndex;
use halo2_frontend::table::{Any, Column};

fn q(col: usize, rot: i32) -> Query {
    Query { column_index: col, rotation: Rotation(rot) }
}

fn felt(n: u64) -> Felt {
    Felt::from_u64(n)
}

fn io_of(r: Result<ResolvedQuery, ResolveError>) -> FuncIO {
    match r {
        Ok(ResolvedQuery::IO(io)) => io,
        other => panic!("expected a variable, got {:?}", other),
    }
}

#[test]
fn rotations_resolve_to_rows() {
    let advice = CircuitIO::<Advice>::empty();
    let instance = CircuitIO::<Instance>::empty();
    let fixed = FixedData::new();
    let row = Row::new(5, &advice, &instance, &fixed);
    assert_eq!(row.resolve_rotation(Rotation(0)), Ok(5));
    assert_eq!(row.resolve_rotation(Rotation(2)), Ok(7));
    assert_eq!(row.resolve_rotation(Rotation(-5)), Ok(0));
    assert_eq!(row.resolve_rotation(Rotation(-6)), Err(ResolveError::RowUnderflow));
}

#[test]
fn advice_io_comes_after_instance_io() {
    let advice = CircuitIO::new_from_iocells(
        vec![(Column::new(0, Advice), 3), (Column::new(1, Advice), 3)],
        vec![(Column::new(2, Advice), 4)],
    );
    let instance = CircuitIO::new_from_iocells(
        vec![(Column::new(0, Instance), 0)],
        vec![(Column::new(0, Instance), 1), (Column::new(0, Instance), 2)],
    );
    let fixed = FixedData::new();
    let row = Row::new(3, &advice, &instance, &fixed);
    // The second advice input comes after the one instance input.
    assert_eq!(io_of(row.resolve_advice_query(&q(1, 0))), FuncIO::Arg(2));
    // The advice output, one row below, comes after the two instance outputs.
    assert_eq!(io_of(row.resolve_advice_query(&q(2, 1))), FuncIO::Field(2));
    // A cell that is neither is an absolute advice cell.
    assert_eq!(io_of(row.resolve_advice_query(&q(7, 0))), FuncIO::advice_abs(7, 3));
    // Instance cells are not shifted.
    assert_eq!(io_of(row.resolve_instance_query(&q(0, -1))), FuncIO::Field(1));
    assert_eq!(io_of(row.resolve_instance_query(&q(0, -2))), FuncIO::Field(0));
    assert_eq!(io_of(row.resolve_instance_query(&q(0, -3))), FuncIO::Arg(0));
}

#[test]
fn cell_that_is_input_and_output_is_an_error() {
    let cell = (Column::new(0, Advice), 0);
    let advice = CircuitIO::new_from_iocells(vec![cell], vec![cell]);
    let instance = CircuitIO::<Instance>::empty();
    let fixed = FixedData::new();
    let row = Row::new(0, &advice, &instance, &fixed);
    assert!(matches!(row.resolve_advice_query(&q(0, 0)), Err(ResolveError::InputAndOutput)));
}

#[test]
fn fixed_queries_read_the_fixed_data() {
    let mut fixed = FixedData::new();
    fixed.assign_fixed(Column::new(1, Fixed), 4, Some(felt(9)));
    fixed.blanket_fill(Column::new(1, Fixed), 2, Some(felt(3)));
    fixed.assign_fixed(Column::new(2, Fixed), 0, None);
    let advice = CircuitIO::<Advice>::empty();
    let instance = CircuitIO::<Instance>::empty();
    let row = Row::new(4, &advice, &instance, &fixed);
    match row.resolve_fixed_query(&q(1, 0)) {
        Ok(ResolvedQuery::Lit(f)) => assert!(f.is_value(9)),
        other => panic!("unexpected {:?}", other),
    }
    match row.resolve_fixed_query(&q(1, -1)) {
        Ok(ResolvedQuery::Lit(f)) => assert!(f.is_value(3)),
        other => panic!("unexpected {:?}", other),
    }
    // Nothing assigned: zero.
    match row.resolve_fixed_query(&q(1, -3)) {
        Ok(ResolvedQuery::Lit(f)) => assert!(f.is_value(0)),
        other => panic!("unexpected {:?}", other),
    }
    assert!(matches!(row.resolve_fixed_query(&q(2, -4)), Err(ResolveError::UnknownFixedValue)));
}

fn region(index: usize, rows: &[usize], selector: Option<(Selector, usize)>) -> RegionDataImpl {
    let mut r = RegionDataImpl::new("region".to_string(), RegionIndex(index));
    for row in rows {
        for col in 0..3 {
            r.update_extent(Column::new(col, Any::Advice), *row);
        }
    }
    if let Some((s, row)) = selector {
        r.enable_selector(s, row);
    }
    r
}

#[test]
fn region_rows_resolve_advice_relative_to_the_region() {
    let data = region(0, &[4, 5, 6], None);
    let advice = CircuitIO::<Advice>::empty();
    let instance = CircuitIO::<Instance>::empty();
    let fixed = FixedData::new();
    let rr = RegionRow::new(RegionData::new(&data), 5, &advice, &instance, &fixed);
    // In absolute mode the offset in the region is scaled by ten.
    assert_eq!(io_of(rr.resolve_advice_query(&q(1, 1))), FuncIO::advice_rel(1, 4, 20));
    // Outside the rows of the region the cell is absolute.
    assert_eq!(io_of(rr.resolve_advice_query(&q(1, 2))), FuncIO::advice_abs(1, 7));
    let rel = RegionRow::new_with_mode(RegionData::new(&data), 5, RowMode::Relative, &advice, &instance, &fixed);
    assert_eq!(io_of(rel.resolve_advice_query(&q(1, 1))), FuncIO::advice_rel(1, 4, 6));
}

#[test]
fn region_without_rows_cannot_resolve_advice() {
    let data = RegionDataImpl::new("empty".to_string(), RegionIndex(0));
    let advice = CircuitIO::<Advice>::empty();
    let instance = CircuitIO::<Instance>::empty();
    let fixed = FixedData::new();
    let rr = RegionRow::new(RegionData::new(&data), 0, &advice, &instance, &fixed);
    assert!(matches!(rr.resolve_advice_query(&q(0, 0)), Err(ResolveError::RegionWithoutStart)));
}

#[test]
fn selectors_are_enabled_at_their_rows() {
    let s = Selector { index: 0, simple: true };
    let other = Selector { index: 1, simple: true };
    let data = region(0, &[0, 1], Some((s, 1)));
    let advice = CircuitIO::<Advice>::empty();
    let instance = CircuitIO::<Instance>::empty();
    let fixed = FixedData::new();
    let at0 = RegionRow::new(RegionData::new(&data), 0, &advice, &instance, &fixed);
    let at1 = RegionRow::new(RegionData::new(&data), 1, &advice, &instance, &fixed);
    assert_eq!(at0.resolve_selector(&s), Ok(ResolvedSelector::Const(Bool(false))));
    assert_eq!(at1.resolve_selector(&s), Ok(ResolvedSelector::Const(Bool(true))));
    assert!(at0.gate_is_disabled(&vec![s, other]));
    assert!(!at1.gate_is_disabled(&vec![other, s]));
    assert!(at1.gate_is_disabled(&vec![]));
    let row = Row::new(1, &advice, &instance, &fixed);
    assert_eq!(row.resolve_selector(&s), Err(ResolveError::SelectorOutsideRegion));
}

fn advice(col: usize) -> Expression {
    Expression::Advice(q(col, 0))
}

/// `s * (a * b - c)`.
fn mul_gate(s: Selector) -> Expression {
    let ab = Expression::Product(Box::new(advice(0)), Box::new(advice(1)));
    let diff = Expression::Sum(Box::new(ab), Box::new(Expression::Negated(Box::new(advice(2)))));
    Expression::Product(Box::new(Expression::Selector(s)), Box::new(diff))
}

#[test]
fn mul_gate_equivalence() {
    let s = Selector { index: 0, simple: true };
    let r0 = region(0, &[0], Some((s, 0)));
    let r1 = region(1, &[1], Some((s, 1)));
    let advice_io = CircuitIO::<Advice>::empty();
    let instance_io = CircuitIO::<Instance>::empty();
    let fixed = FixedData::new();
    let gate = mul_gate(s);
    let e0 = ScopedExpression::new(
        mul_gate(s),
        Scope::InRegion(RegionRow::new(RegionData::new(&r0), 0, &advice_io, &instance_io, &fixed)),
    )
    .to_aexpr()
    .unwrap();
    let e1 = ScopedExpression::new(
        gate,
        Scope::InRegion(RegionRow::new(RegionData::new(&r1), 1, &advice_io, &instance_io, &fixed)),
    )
    .to_aexpr()
    .unwrap();
    assert!(e0.equivalent(&e1));
    assert!(!e0.equals(&e1));
    let expected = IRAexpr::Product(
        Box::new(IRAexpr::Constant(felt(1))),
        Box::new(IRAexpr::Sum(
            Box::new(IRAexpr::Product(
                Box::new(IRAexpr::IO(FuncIO::advice_rel(0, 1, 0))),
                Box::new(IRAexpr::IO(FuncIO::advice_rel(1, 1, 0))),
            )),
            Box::new(IRAexpr::Negated(Box::new(IRAexpr::IO(FuncIO::advice_rel(2, 1, 0))))),
        )),
    );
    assert!(e1.equals(&expected));
}

#[test]
fn scaled_expressions_become_products() {
    let advice_io = CircuitIO::<Advice>::empty();
    let instance_io = CircuitIO::<Instance>::empty();
    let fixed = FixedData::new();
    let row = Row::new(2, &advice_io, &instance_io, &fixed);
    let e = Expression::Scaled(Box::new(Expression::Challenge(3)), felt(5));
    let a = IRAexpr::new(&e, &row, &row, &row).unwrap();
    let expected = IRAexpr::Product(
        Box::new(IRAexpr::IO(FuncIO::Challenge(3))),
        Box::new(IRAexpr::Constant(felt(5))),
    );
    assert!(a.equals(&expected));
    // Selectors outside of a region are an error.
    let s = Expression::Selector(Selector { index: 0, simple: false });
    assert!(matches!(IRAexpr::new(&s, &row, &row, &row), Err(ResolveError::SelectorOutsideRegion)));
}

#[test]
fn enabled_selectors_are_those_enabled_by_the_calls() {
    let s0 = Selector { index: 0, simple: true };
    let s1 = Selector { index: 1, simple: false };
    let mut r = RegionDataImpl::new("region".to_string(), RegionIndex(0));
    r.enable_selector(s0, 2);
    r.enable_selector(s1, 2);
    r.enable_selector(s0, 2);
    r.enable_selector(s0, 3);
    let at2 = r.selectors_enabled_for_row(2);
    assert_eq!(at2.len(), 2);
    assert!(at2.iter().any(|s| s.index == 0) && at2.iter().any(|s| s.index == 1));
    let at3 = r.selectors_enabled_for_row(3);
    assert_eq!(at3.len(), 1);
    assert_eq!(at3[0].index, 0);
    assert!(r.selectors_enabled_for_row(4).is_empty());
}

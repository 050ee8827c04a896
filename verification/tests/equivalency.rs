use halo2_frontend::felt::Felt;
use halo2_frontend::func_io::FuncIO;
use halo2_frontend::ir::aexpr::IRAexpr;
use halo2_frontend::ir::bexpr::IRBexpr;
use halo2_frontend::ir::compare::CmpOp;
use halo2_frontend::ir::equivalency::{EqvRelation, SymbolicEqv};
use halo2_frontend::ir::groups::{GroupBody, GroupKey};
use halo2_frontend::ir::stmt::IRStmt;

fn rel(col: usize, base: usize, row: usize) -> IRAexpr {
    IRAexpr::IO(FuncIO::advice_rel(col, base, row))
}

fn abs(col: usize, row: usize) -> IRAexpr {
    IRAexpr::IO(FuncIO::advice_abs(col, row))
}

fn c(n: u64) -> IRAexpr {
    IRAexpr::Constant(Felt::from_u64(n))
}

fn sum(a: IRAexpr, b: IRAexpr) -> IRAexpr {
    IRAexpr::Sum(Box::new(a), Box::new(b))
}

fn eq_aexpr(a: &IRAexpr, b: &IRAexpr) -> bool {
    <SymbolicEqv as EqvRelation<IRAexpr, IRAexpr>>::equivalent(a, b)
}

fn eq_stmt(a: &IRStmt<IRAexpr>, b: &IRStmt<IRAexpr>) -> bool {
    <SymbolicEqv as EqvRelation<IRStmt<IRAexpr>, IRStmt<IRAexpr>>>::equivalent(a, b)
}

#[test]
fn relative_cells_of_different_regions_are_equivalent() {
    assert!(eq_aexpr(&sum(rel(0, 3, 1), c(2)), &sum(rel(0, 9, 1), c(2))));
    assert!(!eq_aexpr(&sum(rel(0, 3, 1), c(2)), &sum(rel(0, 9, 2), c(2))));
    assert!(!eq_aexpr(&sum(rel(0, 3, 1), c(2)), &sum(rel(0, 3, 1), c(3))));
    // Absolute cells must be the same cell.
    assert!(eq_aexpr(&abs(1, 4), &abs(1, 4)));
    assert!(!eq_aexpr(&abs(1, 4), &abs(1, 5)));
    assert!(!eq_aexpr(&abs(1, 4), &rel(1, 0, 4)));
}

#[test]
fn boolean_expressions_compare_structurally() {
    let eq = |a: &IRBexpr<IRAexpr>, b: &IRBexpr<IRAexpr>| {
        <SymbolicEqv as EqvRelation<IRBexpr<IRAexpr>, IRBexpr<IRAexpr>>>::equivalent(a, b)
    };
    let t: IRBexpr<IRAexpr> = IRBexpr::True;
    assert!(eq(&t, &IRBexpr::True));
    assert!(!eq(&t, &IRBexpr::False));
    let one = IRBexpr::And(vec![IRBexpr::True]);
    let two = IRBexpr::And(vec![IRBexpr::True, IRBexpr::False]);
    assert!(!eq(&one, &two));
    assert!(!eq(&two, &one));
    assert!(eq(&two, &IRBexpr::And(vec![IRBexpr::True, IRBexpr::False])));
    let cmp = || IRBexpr::Cmp(CmpOp::Eq, rel(0, 1, 0), c(1));
    let other = IRBexpr::Cmp(CmpOp::Eq, rel(0, 7, 0), c(1));
    assert!(<SymbolicEqv as EqvRelation<IRBexpr<IRAexpr>, IRBexpr<IRAexpr>>>::equivalent(&cmp(), &other));
    let neg = IRBexpr::Not(Box::new(cmp()));
    assert!(!<SymbolicEqv as EqvRelation<IRBexpr<IRAexpr>, IRBexpr<IRAexpr>>>::equivalent(&neg, &other));
}

#[test]
fn statements_compare_structurally() {
    let a = IRStmt::seq(vec![
        IRStmt::comment("first"),
        IRStmt::constraint(CmpOp::Eq, rel(0, 1, 0), c(1)),
    ]);
    let b = IRStmt::seq(vec![
        IRStmt::comment("another text"),
        IRStmt::seq(vec![IRStmt::constraint(CmpOp::Eq, rel(0, 5, 0), c(1))]),
    ]);
    assert!(eq_stmt(&a, &b));
    // Statements of different lengths are not equivalent, even when one starts the other.
    assert!(!eq_stmt(&a, &IRStmt::empty()));
    assert!(eq_stmt(&IRStmt::empty(), &IRStmt::empty()));
    let one = IRStmt::<IRAexpr>::comment("x");
    let two = IRStmt::seq(vec![IRStmt::comment("x"), IRStmt::comment("y")]);
    assert!(!eq_stmt(&one, &two));
    assert!(!eq_stmt(&two, &one));
    let d = IRStmt::seq(vec![IRStmt::comment("x"), IRStmt::constraint(CmpOp::Lt, rel(0, 5, 0), c(1))]);
    assert!(!eq_stmt(&a, &d));
    let v = IRStmt::<IRAexpr>::assume_deterministic(FuncIO::Arg(0));
    assert!(!eq_stmt(&v, &IRStmt::comment("x")));
}

fn group(key: Option<u64>, gates: IRStmt<IRAexpr>) -> GroupBody<IRAexpr> {
    GroupBody::from_parts(
        "g".to_string(),
        0,
        (1, 1),
        key.map(GroupKey),
        gates,
        IRStmt::empty(),
        vec![],
        IRStmt::empty(),
    )
}

#[test]
fn top_level_group_is_never_equivalent() {
    let gate = || IRStmt::constraint(CmpOp::Eq, rel(0, 1, 0), c(1));
    let eq = |a: &GroupBody<IRAexpr>, b: &GroupBody<IRAexpr>| {
        <SymbolicEqv as EqvRelation<GroupBody<IRAexpr>, GroupBody<IRAexpr>>>::equivalent(a, b)
    };
    assert!(eq(&group(Some(1), gate()), &group(Some(1), gate())));
    assert!(!eq(&group(Some(1), gate()), &group(Some(2), gate())));
    assert!(!eq(&group(None, gate()), &group(None, gate())));
    assert!(!eq(&group(Some(1), gate()), &group(None, gate())));
}

use halo2_frontend::felt::Felt;
use halo2_frontend::func_io::FuncIO;
use halo2_frontend::ir::aexpr::IRAexpr;
use halo2_frontend::ir::bexpr::IRBexpr;
use halo2_frontend::ir::compare::CmpOp;
use halo2_frontend::ir::stmt::{Constraint, FoldError, IRStmt};
use halo2_frontend::poly::{Expression, Rotation};
use halo2_frontend::resolvers::{Advice, Fixed, Instance};
use halo2_frontend::table::ColumnType;
use halo2_frontend::ir::generate::lower_gates;
use halo2_frontend::synthesis::regions::data::{RegionData, RegionDataImpl};
use halo2_frontend::synthesis::regions::RegionIndex;

type S = IRStmt<()>;

fn collect<T>(s: IRStmt<T>) -> Vec<IRStmt<T>> {
    let mut it = s.into_iter();
    let mut out = Vec::new();
    while let Some(x) = it.next() {
        out.push(x);
    }
    out
}

#[test]
fn iterator_nested_seqs() {
    let nested = S::seq(vec![
        S::assertion(IRBexpr::And(vec![])),
        S::seq(vec![
            S::assertion(IRBexpr::And(vec![])),
            S::assertion(IRBexpr::And(vec![])),
        ]),
    ]);
    let expected = vec![
        S::assertion(IRBexpr::And(vec![])),
        S::assertion(IRBexpr::And(vec![])),
        S::assertion(IRBexpr::And(vec![])),
    ];
    let output = collect(nested);
    assert_eq!(expected, output);
}

fn eq<T>(lhs: T, rhs: T) -> IRStmt<T> {
    IRStmt::constraint(CmpOp::Eq, lhs, rhs)
}

fn lt<T>(lhs: T, rhs: T) -> IRStmt<T> {
    IRStmt::constraint(CmpOp::Lt, lhs, rhs)
}

fn helper_with<T: PartialEq + std::fmt::Debug>(
    x: impl Fn() -> T,
    y: impl Fn() -> T,
    z: impl Fn() -> T,
    w: impl Fn() -> T,
) {
    let a = eq(x(), y());
    let b = eq(x(), y());
    let c = eq(z(), w());
    let d = lt(z(), w());

    assert_eq!(a, b);
    assert_ne!(a, c);
    assert_ne!(c, d);
}

fn helper_seqs_with<T: PartialEq + std::fmt::Debug>(x: impl Fn() -> T, y: impl Fn() -> T) {
    let a = eq(x(), y());
    let b = IRStmt::seq(vec![eq(x(), y())]);
    assert_eq!(a, b);
}

#[test]
fn test_test_partial_eq_on_i32() {
    helper_with(|| 1i32, || 2, || 3, || 4);
}

fn c(n: u64) -> Expression {
    Expression::constant(n)
}

fn f(col: usize, rot: Rotation) -> Expression {
    Fixed.query_cell(col, rot)
}

fn a(col: usize, rot: Rotation) -> Expression {
    Advice.query_cell(col, rot)
}

fn i(col: usize, rot: Rotation) -> Expression {
    Instance.query_cell(col, rot)
}

#[test]
fn test_test_partial_eq_on_expressions() {
    helper_with(|| c(1), || c(2), || c(3), || c(4));
    helper_with(|| f(1, Rotation::cur()), || c(2), || c(3), || c(4));
    helper_with(|| a(1, Rotation::cur()), || c(2), || c(3), || c(4));
    helper_with(|| i(1, Rotation::cur()), || c(2), || c(3), || c(4));

    helper_seqs_with(|| c(1), || c(2));
    helper_seqs_with(|| f(1, Rotation::cur()), || c(2));
    helper_seqs_with(|| a(1, Rotation::cur()), || c(2));
    helper_seqs_with(|| i(1, Rotation::cur()), || c(2));
}

#[test]
fn nested_sequences_equal_flat_ones() {
    let x = || IRStmt::comment("a");
    let y = || IRStmt::<i32>::assume_deterministic(FuncIO::Arg(1));
    let z = || eq(1i32, 2);
    let nested = IRStmt::seq(vec![x(), IRStmt::seq(vec![y(), z()])]);
    let flat = IRStmt::seq(vec![x(), y(), z()]);
    assert_eq!(nested, flat);
    assert_eq!(z(), IRStmt::seq(vec![z()]));
    assert_ne!(z(), IRStmt::seq(vec![z(), z()]));
    assert_eq!(IRStmt::<i32>::empty(), IRStmt::seq(vec![IRStmt::empty()]));
    assert!(IRStmt::<i32>::empty().is_empty());
    assert!(!z().is_empty());
}

fn felt(n: u64) -> IRAexpr {
    IRAexpr::Constant(Felt::from_u64(n))
}

#[test]
fn constant_fold_removes_tautologies() {
    let prime = Felt::from_u64(7);
    let mut s = IRStmt::seq(vec![
        IRStmt::constraint(CmpOp::Eq, felt(3), felt(10)),
        IRStmt::constraint(CmpOp::Eq, IRAexpr::IO(FuncIO::Arg(0)), felt(9)),
    ]);
    assert_eq!(s.constant_fold(&prime), Ok(()));
    let expected = IRStmt::seq(vec![
        IRStmt::empty(),
        IRStmt::constraint(CmpOp::Eq, IRAexpr::IO(FuncIO::Arg(0)), felt(2)),
    ]);
    assert_eq!(s, expected);
}

#[test]
fn constant_fold_rejects_unsatisfiable() {
    let prime = Felt::from_u64(7);
    let mut s = IRStmt::constraint(CmpOp::Eq, felt(3), felt(4));
    assert_eq!(s.constant_fold(&prime), Err(FoldError::Unsatisfiable));
    let mut t = IRStmt::assertion(IRBexpr::Cmp(CmpOp::Lt, felt(5), felt(3)));
    assert_eq!(t.constant_fold(&prime), Err(FoldError::Unsatisfiable));
    let mut u = IRStmt::assertion(IRBexpr::Cmp(CmpOp::Lt, felt(3), felt(5)));
    assert_eq!(u.constant_fold(&prime), Ok(()));
    assert!(u.is_empty());
}

fn constraint_helper_with<T: PartialEq + std::fmt::Debug>(
    x: impl Fn() -> T,
    y: impl Fn() -> T,
    z: impl Fn() -> T,
    w: impl Fn() -> T,
) {
    let a = Constraint::new(CmpOp::Eq, x(), y());
    let b = Constraint::new(CmpOp::Eq, x(), y());
    let c = Constraint::new(CmpOp::Eq, z(), w());
    let d = Constraint::new(CmpOp::Lt, z(), w());

    assert_eq!(a, b);
    assert_ne!(a, c);
    assert_ne!(c, d);
}

#[test]
fn constraint_test_partial_eq_on_i32() {
    constraint_helper_with(|| 1i32, || 2, || 3, || 4);
}

#[test]
fn constraint_test_partial_eq_on_expressions() {
    constraint_helper_with(|| c(1), || c(2), || c(3), || c(4));
    constraint_helper_with(|| f(1, Rotation::cur()), || c(2), || c(3), || c(4));
    constraint_helper_with(|| a(1, Rotation::cur()), || c(2), || c(3), || c(4));
    constraint_helper_with(|| i(1, Rotation::cur()), || c(2), || c(3), || c(4));
}

#[test]
fn test_partial_eq_on_row_expressions() {
    let x = || (0usize, a(0, Rotation::cur()));
    let y = || {
        let f0_0 = f(0, Rotation::cur());
        let a1_0 = a(1, Rotation::cur());
        let a0_1 = a(0, Rotation::next());
        (0usize, f0_0.mul(a1_0).add(a0_1))
    };
    constraint_helper_with(x, y, || (0usize, c(3)), || (0usize, c(4)));
}

#[test]
fn gates_are_lowered_region_by_region() {
    let a = RegionDataImpl::new("a".to_string(), RegionIndex(0));
    let b = RegionDataImpl::new("b".to_string(), RegionIndex(1));
    let regions = vec![RegionData::new(&a), RegionData::new(&b)];
    let lower = |r: &RegionData, g: &u32| -> Result<(IRStmt<u32>, IRStmt<u32>), String> {
        if *g == 2 && r.name() == "b" {
            return Err(format!("gate {} in {}", g, r.name()));
        }
        if *g == 3 {
            return Ok((IRStmt::empty(), IRStmt::comment(r.name())));
        }
        Ok((IRStmt::constraint(CmpOp::Eq, *g, *g), IRStmt::comment(r.name())))
    };
    let out = lower_gates(&vec![1u32, 3], &regions, &lower).unwrap();
    assert_eq!(out.len(), 4);
    let expected = |name: &str, g: u32| IRStmt::seq(vec![IRStmt::comment(name), IRStmt::constraint(CmpOp::Eq, g, g)]);
    assert!(matches!(out[0], IRStmt::Sequence(_)));
    assert!(out[0].eq_stmt(&expected("a", 1)));
    assert!(out[1].is_empty());
    assert!(out[2].eq_stmt(&expected("b", 1)));
    assert!(!out[2].eq_stmt(&expected("a", 1)));
    assert!(out[3].is_empty());
    // The first failing pair stops the lowering.
    assert_eq!(lower_gates(&vec![1u32, 2, 3], &regions, &lower).err(), Some("gate 2 in b".to_string()));
}

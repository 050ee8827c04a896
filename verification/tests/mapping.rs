use std::cell::Cell as Counter;

use halo2_frontend::felt::Felt;
use halo2_frontend::func_io::FuncIO;
use halo2_frontend::ir::aexpr::IRAexpr;
use halo2_frontend::ir::bexpr::IRBexpr;
use halo2_frontend::ir::compare::CmpOp;
use halo2_frontend::ir::stmt::{Constraint, IRStmt};

fn below(limit: u32, calls: &Counter<u32>) -> impl Fn(u32) -> Result<u32, u32> + '_ {
    move |x| {
        calls.set(calls.get() + 1);
        if x < limit {
            Ok(x * 10)
        } else {
            Err(x)
        }
    }
}

#[test]
fn constraint_sides_are_mapped_left_first() {
    let calls = Counter::new(0);
    let c = Constraint::new(CmpOp::Eq, 7, 8);
    assert_eq!(c.try_map(&below(5, &calls)).err(), Some(7));
    assert_eq!(calls.get(), 1);
    let calls = Counter::new(0);
    let c = Constraint::new(CmpOp::Eq, 1, 8);
    assert_eq!(c.try_map(&below(5, &calls)).err(), Some(8));
    assert_eq!(calls.get(), 2);
    let calls = Counter::new(0);
    let c = Constraint::new(CmpOp::Lt, 1, 2);
    let d = c.try_map(&below(5, &calls)).ok().unwrap();
    assert_eq!((d.op, d.lhs, d.rhs), (CmpOp::Lt, 10, 20));
}

#[test]
fn statements_report_the_first_failing_expression() {
    let s = IRStmt::seq(vec![
        IRStmt::constraint(CmpOp::Eq, 1, 2),
        IRStmt::seq(vec![IRStmt::constraint(CmpOp::Eq, 3, 9), IRStmt::constraint(CmpOp::Eq, 8, 1)]),
    ]);
    let calls = Counter::new(0);
    assert_eq!(s.try_map(&below(5, &calls)).err(), Some(9));
    assert_eq!(calls.get(), 4);
}

#[test]
fn boolean_expressions_report_the_first_failing_leaf() {
    let e = IRBexpr::And(vec![
        IRBexpr::Cmp(CmpOp::Eq, 1, 2),
        IRBexpr::Not(Box::new(IRBexpr::Cmp(CmpOp::Eq, 6, 3))),
        IRBexpr::Cmp(CmpOp::Eq, 7, 1),
    ]);
    let calls = Counter::new(0);
    assert_eq!(e.try_map(&below(5, &calls)).err(), Some(6));
    assert_eq!(calls.get(), 3);
}

fn felt(n: u64) -> Felt {
    Felt::from_u64(n)
}

fn sum() -> IRAexpr {
    IRAexpr::Sum(
        Box::new(IRAexpr::Constant(felt(2))),
        Box::new(IRAexpr::Product(Box::new(IRAexpr::IO(FuncIO::Arg(0))), Box::new(IRAexpr::Constant(felt(3))))),
    )
}

#[test]
fn arithmetic_constants_are_mapped() {
    let doubled = sum().map(&|f: Felt| if f.is_value(2) { felt(4) } else { felt(6) });
    match doubled {
        IRAexpr::Sum(a, b) => {
            assert!(matches!(*a, IRAexpr::Constant(ref f) if f.is_value(4)));
            match *b {
                IRAexpr::Product(x, y) => {
                    assert!(matches!(*x, IRAexpr::IO(FuncIO::Arg(0))));
                    assert!(matches!(*y, IRAexpr::Constant(ref f) if f.is_value(6)));
                }
                _ => panic!("expected a product"),
            }
        }
        _ => panic!("expected a sum"),
    }
    let calls = Counter::new(0);
    let fail_on_two = |f: Felt| {
        calls.set(calls.get() + 1);
        if f.is_value(2) {
            Err(2u64)
        } else {
            Ok(f)
        }
    };
    assert_eq!(sum().try_map(&fail_on_two).err(), Some(2));
    assert_eq!(calls.get(), 1);
    let fail_on_three = |f: Felt| if f.is_value(3) { Err(3u64) } else { Ok(f) };
    assert_eq!(sum().try_map(&fail_on_three).err(), Some(3));
    assert!(IRAexpr::IO(FuncIO::Arg(1)).try_map(&fail_on_three).is_ok());
}

#[test]
fn mapping_twice_is_mapping_by_the_composition() {
    let e = || {
        IRBexpr::Or(vec![
            IRBexpr::Cmp(CmpOp::Lt, 1u32, 2u32),
            IRBexpr::Not(Box::new(IRBexpr::Cmp(CmpOp::Eq, 3u32, 4u32))),
        ])
    };
    let f = |x: u32| x + 1;
    let g = |x: u32| x * 3;
    let twice = e().map(&f).map(&g);
    let once = e().map(&|x: u32| g(f(x)));
    assert_eq!(format!("{twice:?}"), format!("{once:?}"));
    let s = || {
        IRStmt::seq(vec![
            IRStmt::constraint(CmpOp::Eq, 1u32, 2u32),
            IRStmt::comment("c"),
            IRStmt::assertion(e()),
        ])
    };
    let twice = s().map(&f).map(&g);
    let once = s().map(&|x: u32| g(f(x)));
    assert_eq!(format!("{twice:?}"), format!("{once:?}"));
}

#[test]
fn felts_from_field_representations() {
    assert!(Felt::new(&[1, 2]).is_value(513));
    assert!(Felt::new(&[]).is_value(0));
    assert!(Felt::new(&[0, 0, 0, 0, 1]).is_value(1 << 32));
    // The field of order 13: its element -1 is 12.
    assert!(Felt::prime(&[12, 0, 0, 0]).is_value(13));
    assert!(Felt::prime(&[255, 255, 255, 255]).is_value(1 << 32));
}

#[test]
fn in_place_mapping_stops_at_the_first_error() {
    let mut s = IRStmt::seq(vec![
        IRStmt::constraint(CmpOp::Eq, 1u32, 2u32),
        IRStmt::constraint(CmpOp::Eq, 7u32, 3u32),
        IRStmt::constraint(CmpOp::Eq, 9u32, 4u32),
    ]);
    let calls = Counter::new(0);
    let f = |x: &u32| {
        calls.set(calls.get() + 1);
        if *x < 5 {
            Ok(x * 10)
        } else {
            Err(*x)
        }
    };
    assert_eq!(s.try_map_inplace(&f), Err(7));
    assert_eq!(calls.get(), 3);
    let expected = IRStmt::seq(vec![
        IRStmt::constraint(CmpOp::Eq, 10u32, 20u32),
        IRStmt::constraint(CmpOp::Eq, 7u32, 3u32),
        IRStmt::constraint(CmpOp::Eq, 9u32, 4u32),
    ]);
    assert_eq!(format!("{s:?}"), format!("{expected:?}"));
    let mut b = IRBexpr::Or(vec![IRBexpr::Cmp(CmpOp::Lt, 1u32, 8u32), IRBexpr::Cmp(CmpOp::Lt, 2u32, 3u32)]);
    assert_eq!(b.try_map_inplace(&|x: &u32| if *x < 5 { Ok(x + 1) } else { Err(*x) }), Err(8));
    let expected = IRBexpr::Or(vec![IRBexpr::Cmp(CmpOp::Lt, 2u32, 8u32), IRBexpr::Cmp(CmpOp::Lt, 2u32, 3u32)]);
    assert_eq!(format!("{b:?}"), format!("{expected:?}"));
}

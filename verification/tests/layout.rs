use halo2_frontend::felt::Felt;
use halo2_frontend::func_io::FuncIO;
use halo2_frontend::io::IOError;
use halo2_frontend::ir::aexpr::IRAexpr;
use halo2_frontend::mock::{IRBuilder, MockExprIR, MockFunc, MockOutput};
use halo2_frontend::resolvers::{Advice, Fixed};
use halo2_frontend::support::regions::helpers::{RegionIndexError, RegionLayouterHelper};
use halo2_frontend::support::regions::trackers::SetTracker;
use halo2_frontend::support::regions::{IsolatedRegionsLayouter, IsolationError, IsolationPoint};
use halo2_frontend::support::roles::CellRole;
use halo2_frontend::synthesis::matrix::Matrix;
use halo2_frontend::synthesis::regions::RegionIndex;
use halo2_frontend::table::{Any, Cell, Column};

fn cell(region: usize, row: usize, col: usize, kind: Any) -> Cell {
    Cell {
        region_index: RegionIndex(region),
        row_offset: row,
        column: Column::new(col, kind),
    }
}

#[test]
fn helper_detects_the_first_region() {
    let mut helper = RegionLayouterHelper::new();
    assert_eq!(helper.index(), None);
    let c = cell(3, 0, 1, Any::Advice);
    assert_eq!(helper.detect_index(c, 7u32), Ok(7));
    assert_eq!(helper.index(), Some(RegionIndex(3)));
    let d = cell(3, 5, 2, Any::Fixed);
    assert!(helper.detect_index_cell_payload(d).is_ok());
    assert_eq!(helper.index(), Some(RegionIndex(3)));
}

#[test]
fn helper_refuses_a_cell_of_another_region() {
    let mut helper = RegionLayouterHelper::default();
    helper.detect_index(cell(1, 0, 0, Any::Advice), ()).unwrap();
    assert_eq!(
        helper.detect_index(cell(2, 0, 0, Any::Advice), ()),
        Err(RegionIndexError::Inconsistent {
            known: RegionIndex(1),
            given: RegionIndex(2)
        })
    );
    assert_eq!(helper.index(), Some(RegionIndex(1)));
}

#[test]
fn matrix_reads_default_until_written() {
    let mut m: Matrix<Fixed, u64> = Matrix::default();
    let col = Column::new(2, Fixed);
    assert_eq!(*m.index((col, 4)), 0);
    *m.index_mut((col, 4)) = 9;
    assert_eq!(*m.index((col, 4)), 9);
    assert_eq!(*m.index((col, 5)), 0);
    assert_eq!(*m.get(3, 4), 0);
    *m.get_mut(2, 4) += 1;
    assert_eq!(*m.get(2, 4), 10);
}

fn builder_output(b: IRBuilder) -> Vec<MockExprIR> {
    b.into()
}

#[test]
fn builder_takes_operands_from_the_stack() {
    let out = builder_output(
        IRBuilder::default()
            .push_temp(0, 1)
            .push_fixed(2, 3)
            .sum()
            .push_arg(0)
            .product()
            .neg(),
    );
    assert_eq!(out.len(), 6);
    assert!(matches!(out[0], MockExprIR::Temp(0, 1)));
    assert!(matches!(out[1], MockExprIR::Fixed(2, 3)));
    assert!(matches!(out[2], MockExprIR::Sum(0, 1)));
    assert!(matches!(out[3], MockExprIR::Arg(0)));
    assert!(matches!(out[4], MockExprIR::Product(2, 3)));
    assert!(matches!(out[5], MockExprIR::Neg(4)));
}

#[test]
fn builder_uses_given_operands() {
    let out = builder_output(
        IRBuilder::new()
            .push_const(Felt::from_u64(5))
            .push_field(1)
            .constraint(0, 1)
            .sum_with(Some(0), None)
            .product_with(None, Some(1)),
    );
    assert!(matches!(out[2], MockExprIR::Constraint(0, 1)));
    assert!(matches!(out[3], MockExprIR::Sum(0, 2)));
    assert!(matches!(out[4], MockExprIR::Product(3, 1)));
    match &out[0] {
        MockExprIR::Const(f) => assert!(f.is_value(5)),
        _ => panic!("expected a constant"),
    }
}

#[derive(Hash)]
struct Point(u32);

impl IsolationPoint for Point {}

#[test]
fn isolated_regions_annotate_inputs_and_outputs() {
    let mut inner = ();
    let mut layouter = IsolatedRegionsLayouter::new(&mut inner, SetTracker::new(), Point(1));
    layouter.name_regions(&|| "chip".to_string());
    layouter.track_region(Some(RegionIndex(4)));
    layouter.track_region(None);

    // An output outside the isolated regions is refused.
    assert_eq!(
        layouter.annotate_cell(cell(5, 0, 0, Any::Advice), CellRole::<Advice>::output()),
        Err(IsolationError::OutputOutsideRegions(RegionIndex(5)))
    );
    // An output inside them is recorded, as is an input from anywhere.
    assert_eq!(
        layouter.annotate_cell(cell(4, 1, 0, Any::Advice), CellRole::<Advice>::output()),
        Ok(())
    );
    assert_eq!(
        layouter.annotate_cell(cell(7, 2, 1, Any::Advice), CellRole::<Advice>::input()),
        Ok(())
    );
    // Only advice cells are recorded.
    assert_eq!(
        layouter.annotate_cell(cell(4, 2, 1, Any::Fixed), CellRole::<Advice>::input()),
        Err(IsolationError::IO(IOError::NotAdvice))
    );
    // Intermediate cells are ignored.
    assert_eq!(
        layouter.annotate_cell(cell(9, 0, 0, Any::Fixed), CellRole::<Advice>::intermediate()),
        Ok(())
    );
}

#[test]
fn try_map_io_rewrites_variables_until_an_error() {
    let mut e = IRAexpr::Sum(
        Box::new(IRAexpr::IO(FuncIO::Arg(1))),
        Box::new(IRAexpr::Negated(Box::new(IRAexpr::IO(FuncIO::Arg(2))))),
    );
    let shift = |io: FuncIO| -> Result<FuncIO, ()> {
        match io {
            FuncIO::Arg(n) if n < 100 => Ok(FuncIO::Arg(n + 10)),
            FuncIO::Arg(_) => Err(()),
            other => Ok(other),
        }
    };
    assert_eq!(e.try_map_io(&shift), Ok(()));
    let expected = IRAexpr::Sum(
        Box::new(IRAexpr::IO(FuncIO::Arg(11))),
        Box::new(IRAexpr::Negated(Box::new(IRAexpr::IO(FuncIO::Arg(12))))),
    );
    assert!(e.equals(&expected));

    let mut f = IRAexpr::Product(
        Box::new(IRAexpr::IO(FuncIO::Arg(500))),
        Box::new(IRAexpr::IO(FuncIO::Arg(3))),
    );
    assert_eq!(f.try_map_io(&shift), Err(()));
    let kept = IRAexpr::Product(
        Box::new(IRAexpr::IO(FuncIO::Arg(500))),
        Box::new(IRAexpr::IO(FuncIO::Arg(3))),
    );
    assert!(f.equals(&kept));
}

#[test]
fn mock_functions_record_constraints_and_calls() {
    let mut f = MockFunc::new("gate", 3, Some(2));
    assert_eq!(f.name, "gate");
    assert_eq!(f.args, vec![0, 1, 2]);
    assert_eq!(f.fields, vec![0, 1]);
    let a = f.push_expr(MockExprIR::Arg(0));
    let b = f.push_expr(MockExprIR::Arg(1));
    f.add_constraint(a, b);
    f.add_call("sub".to_string(), &[a], &[b, a]);
    assert_eq!(f.constraints_len(), 1);
    match &f.exprs[3] {
        MockExprIR::Call(name, args) => {
            assert_eq!(name, "sub");
            assert_eq!(args, &vec![0, 1, 0]);
        }
        other => panic!("unexpected {other:?}"),
    }
    let main = MockFunc::new("main", 0, None);
    assert!(main.fields.is_empty());
    let out = MockOutput { gates: vec![f], main: Some(main) };
    assert_eq!(out.gates.len(), 1);
}

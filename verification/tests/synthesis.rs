use std::collections::HashSet;

use halo2_frontend::felt::Felt;
use halo2_frontend::ir::bexpr::IRBexpr;
use halo2_frontend::ir::compare::CmpOp;
use halo2_frontend::ir::generate::region_data;
use halo2_frontend::lookups::{Lookup, LookupData, LookupError};
use halo2_frontend::poly::{Expression, Query, Rotation};
use halo2_frontend::poly::Selector;
use halo2_frontend::resolvers::{Advice, Fixed};
use halo2_frontend::synthesis::synthesizer::Synthesizer;
use halo2_frontend::synthesis::constraint::{EqConstraint, EqConstraintGraph};
use halo2_frontend::synthesis::groups::{Group, GroupRegion};
use halo2_frontend::synthesis::regions::fixed::FixedData;
use halo2_frontend::synthesis::regions::table::{RowsRequestError, TableError};
use halo2_frontend::synthesis::regions::RegionIndex;
use halo2_frontend::synthesis::{
    add_fixed_to_const_constraints, all_tables_fit, checked_tables_for_lookup, fill_tables, tables_for_lookup, BuildError,
    TableLookupError,
};
use halo2_frontend::table::{Any, Column};

fn felt(n: u64) -> Felt {
    Felt::from_u64(n)
}

fn small(f: &Felt) -> u64 {
    (0..64u64).find(|n| f.is_value(*n)).expect("small value")
}

fn fixed_col(n: usize) -> Column<Fixed> {
    Column::new(n, Fixed)
}

fn set(cols: &[usize]) -> HashSet<usize> {
    cols.iter().copied().collect()
}

fn fixed_expr(col: usize) -> Expression {
    Expression::Fixed(Query { column_index: col, rotation: Rotation(0) })
}

#[test]
fn fixed_cells_in_copies_get_their_values() {
    let mut fixed = FixedData::new();
    fixed.assign_fixed(fixed_col(1), 2, Some(felt(9)));
    let mut graph = EqConstraintGraph::new();
    graph.add(EqConstraint::any_to_any(
        Column::new(1, Any::Fixed),
        2,
        Column::new(0, Any::Advice),
        0,
    ));
    assert_eq!(add_fixed_to_const_constraints(&mut graph, &fixed), Ok(()));
    let edges = graph.edges();
    assert_eq!(edges.len(), 2);
    match &edges[1] {
        EqConstraint::FixedToConst(col, row, value) => {
            assert_eq!(col.index, 1);
            assert_eq!(*row, 2);
            assert_eq!(small(value), 9);
        }
        other => panic!("unexpected edge {other:?}"),
    }
}

#[test]
fn unknown_fixed_values_in_copies_are_errors() {
    let mut fixed = FixedData::new();
    fixed.assign_fixed(fixed_col(1), 2, None);
    let mut graph = EqConstraintGraph::new();
    graph.add(EqConstraint::any_to_any(
        Column::new(0, Any::Advice),
        0,
        Column::new(1, Any::Fixed),
        2,
    ));
    assert_eq!(
        add_fixed_to_const_constraints(&mut graph, &fixed),
        Err(BuildError::UnknownFixedValue)
    );
}

#[test]
fn tables_need_their_columns() {
    let mut fixed = FixedData::new();
    fixed.blanket_fill(fixed_col(0), 0, Some(felt(1)));
    assert!(fill_tables(vec![set(&[0])], &fixed).is_ok());
    assert_eq!(
        fill_tables(vec![set(&[0]), set(&[0, 3])], &fixed).err(),
        Some(BuildError::MissingTableColumns)
    );
}

fn lookup_on(table: Vec<Expression>) -> Lookup<Expression> {
    let args = vec![fixed_expr(9)];
    let data = vec![LookupData { name: "l", arguments: &args, table: &table }];
    Lookup::load(&data).remove(0)
}

#[test]
fn lookup_tables_are_given_by_rows() {
    let mut fixed = FixedData::new();
    for row in 0..3usize {
        fixed.assign_fixed(fixed_col(0), row, Some(felt(row as u64)));
        fixed.assign_fixed(fixed_col(1), row, Some(felt(10 + row as u64)));
    }
    let tables = fill_tables(vec![set(&[0, 1])], &fixed).unwrap();
    let l = lookup_on(vec![fixed_expr(1), fixed_expr(0)]);
    let rows = tables_for_lookup(&tables, &l).unwrap();
    assert_eq!(rows.len(), 3);
    assert_eq!(small(rows[2].index(1)), 12);
    assert_eq!(small(rows[2].index(0)), 2);
    assert_eq!(small(rows[0].index(1)), 10);
}

#[test]
fn lookup_tables_report_what_is_missing() {
    let mut fixed = FixedData::new();
    fixed.assign_fixed(fixed_col(0), 0, Some(felt(1)));
    fixed.assign_fixed(fixed_col(0), 2, Some(felt(1)));
    let tables = fill_tables(vec![set(&[0])], &fixed).unwrap();
    // Row 1 has no value.
    let gaps = lookup_on(vec![fixed_expr(0)]);
    assert_eq!(
        tables_for_lookup(&tables, &gaps).err(),
        Some(TableLookupError::Table(TableError::Gaps))
    );
    // No table has column 4.
    let absent = lookup_on(vec![fixed_expr(4)]);
    assert_eq!(tables_for_lookup(&tables, &absent).err(), Some(TableLookupError::NoTable));
    // The table expressions must be fixed queries.
    let advice = lookup_on(vec![Expression::Advice(Query {
        column_index: 0,
        rotation: Rotation(0),
    })]);
    assert_eq!(
        tables_for_lookup(&tables, &advice).err(),
        Some(TableLookupError::Lookup(LookupError::NotAFixedQuery))
    );
}

#[test]
fn region_data_maps_indices_to_starts() {
    let group = |regions: Vec<GroupRegion>| Group {
        name: "g".to_string(),
        top_level: false,
        key: None,
        regions,
        inputs: vec![],
        outputs: vec![],
        children: vec![],
    };
    let groups = vec![
        group(vec![GroupRegion { index: RegionIndex(0), columns: vec![], rows: Some((4, 7)) }]),
        group(vec![
            GroupRegion { index: RegionIndex(1), columns: vec![], rows: None },
            GroupRegion { index: RegionIndex(2), columns: vec![], rows: Some((8, 9)) },
        ]),
    ];
    let map = region_data(&groups);
    assert_eq!(map.start_of(RegionIndex(0)), Some(Some(4)));
    assert_eq!(map.start_of(RegionIndex(1)), Some(None));
    assert_eq!(map.start_of(RegionIndex(2)), Some(Some(8)));
    assert_eq!(map.start_of(RegionIndex(3)), None);
}

fn cmp(a: u32) -> IRBexpr<u32> {
    IRBexpr::Cmp(CmpOp::Eq, a, a)
}

#[test]
fn boolean_operators_flatten() {
    let e = (cmp(1) & cmp(2)) & cmp(3);
    match &e {
        IRBexpr::And(xs) => assert_eq!(xs.len(), 3),
        _ => panic!("expected a conjunction"),
    }
    let o = cmp(1) | (cmp(2) | cmp(3));
    match &o {
        IRBexpr::Or(xs) => assert_eq!(xs.len(), 3),
        _ => panic!("expected a disjunction"),
    }
    let n = !!cmp(4);
    assert!(matches!(n, IRBexpr::Cmp(CmpOp::Eq, 4, 4)));
}

#[test]
fn repeated_edges_and_vertices_are_kept_once() {
    let a = Column::new(0, Any::Advice);
    let b = Column::new(1, Any::Advice);
    let mut graph = EqConstraintGraph::new();
    graph.add(EqConstraint::AnyToAny(a, 0, b, 0));
    graph.add(EqConstraint::AnyToAny(b, 0, a, 0));
    graph.add(EqConstraint::AnyToAny(a, 0, b, 0));
    assert_eq!(graph.edges().len(), 1);
    assert_eq!(graph.vertices().len(), 2);
    graph.add(EqConstraint::AnyToAny(b, 0, a, 1));
    assert_eq!(graph.edges().len(), 2);
    assert_eq!(graph.vertices().len(), 3);
}

#[test]
fn fills_give_way_to_assigned_values() {
    let mut fixed = FixedData::new();
    fixed.assign_fixed(fixed_col(0), 5, Some(felt(1)));
    fixed.blanket_fill(fixed_col(0), 0, Some(felt(2)));
    fixed.blanket_fill(fixed_col(0), 7, Some(felt(3)));
    assert_eq!(fixed.resolve_fixed(0, 5).map(|f| small(&f)), Some(1));
    assert_eq!(fixed.resolve_fixed(0, 4).map(|f| small(&f)), Some(2));
    assert_eq!(fixed.resolve_fixed(0, 8).map(|f| small(&f)), Some(3));
    assert_eq!(fixed.resolve_fixed(1, 8).map(|f| small(&f)), Some(0));
}

#[test]
fn lookups_on_tables_past_their_rows_are_refused() {
    let mut fixed = FixedData::new();
    fixed.blanket_fill(fixed_col(0), 2, Some(felt(1)));
    fixed.assign_fixed(fixed_col(0), 9, Some(felt(3)));
    let tables = fill_tables(vec![set(&[0])], &fixed).unwrap();
    let q0 = vec![Query { column_index: 0, rotation: Rotation(0) }];
    assert!(!all_tables_fit(&tables, &q0));
    let l = lookup_on(vec![fixed_expr(0)]);
    assert_eq!(checked_tables_for_lookup(&tables, &l).err(), Some(RowsRequestError::RowsOutOfRange));
    let mut fine = FixedData::new();
    for row in 0..2usize {
        fine.assign_fixed(fixed_col(0), row, Some(felt(row as u64)));
    }
    let tables = fill_tables(vec![set(&[0])], &fine).unwrap();
    assert!(all_tables_fit(&tables, &q0));
    let rows = checked_tables_for_lookup(&tables, &l).unwrap().unwrap();
    assert_eq!(rows.len(), 2);
    assert_eq!(small(rows[1].index(0)), 1);
}

#[test]
fn synthesizer_records_regions_fixed_values_and_copies() {
    let mut syn = Synthesizer::new(7);
    assert_eq!(syn.id(), 7);
    syn.enter_region("a".to_string());
    syn.enable_selector(Selector { index: 0, simple: true }, 1);
    syn.on_advice_assigned(Column::new(0, Advice), 1);
    syn.on_fixed_assigned(fixed_col(1), 2, felt(5));
    syn.push_namespace("n".to_string());
    syn.pop_namespace(None);
    syn.exit_region();
    // A fixed assignment outside any region is still recorded.
    syn.on_fixed_assigned(fixed_col(1), 3, felt(6));
    syn.copy(Column::new(1, Any::Fixed), 2, Column::new(0, Any::Advice), 1);
    let rs = syn.regions().regions();
    assert_eq!(rs.len(), 1);
    assert_eq!(rs[0].rows(), 1..3);
    assert_eq!(rs[0].selectors_enabled_for_row(1).len(), 1);
    assert_eq!(small(&syn.fixed().resolve_fixed(1, 3).unwrap()), 6);
    assert_eq!(syn.constraints().edges().len(), 1);
    let (g, tables, _) = syn.build().unwrap();
    // The fixed cell of the copy gets an edge to its value.
    assert_eq!(g.edges().len(), 2);
    assert!(tables.is_empty());
}

#[test]
fn synthesizer_moves_tables_out_of_the_regions() {
    let mut syn = Synthesizer::new(0);
    syn.enter_region("t".to_string());
    syn.on_fixed_assigned(fixed_col(0), 0, felt(1));
    syn.exit_region();
    syn.fill_table(fixed_col(0), 1, felt(2));
    assert!(syn.tables().is_empty());
    syn.enter_region("next".to_string());
    assert_eq!(syn.tables().len(), 1);
    syn.exit_region();
    let rs = syn.regions().regions();
    assert_eq!(rs.len(), 1);
    // The region that became a table gave its index to the next one.
    assert_eq!(rs[0].index(), Some(RegionIndex(0)));
    let (_, tables, _) = syn.build().unwrap();
    assert_eq!(tables.len(), 1);
}

#[test]
fn synthesizer_build_checks_table_columns() {
    // A copied fixed cell that was never assigned stands for zero.
    let mut syn = Synthesizer::new(0);
    syn.copy(Column::new(3, Any::Fixed), 0, Column::new(0, Any::Advice), 0);
    let (g, _, _) = syn.build().unwrap();
    assert_eq!(g.edges().len(), 2);
    // A region marked as a table that has no fixed column gives a table of no column.
    let mut syn = Synthesizer::new(0);
    syn.enter_region("t".to_string());
    syn.on_advice_assigned(Column::new(0, Advice), 0);
    syn.exit_region();
    syn.mark_region_as_table();
    syn.enter_region("next".to_string());
    syn.exit_region();
    assert_eq!(syn.tables().len(), 1);
    assert!(syn.tables()[0].is_empty());
    let (_, tables, _) = syn.build().unwrap();
    assert_eq!(tables.len(), 1);
}

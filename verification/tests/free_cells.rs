use halo2_frontend::ir::generate::free_cells::lift_free_cells_to_inputs;
use halo2_frontend::ir::generate::{group_bodies, region_data, LoweredGroup};
use halo2_frontend::ir::groups::GroupKey;
use halo2_frontend::ir::stmt::IRStmt;
use halo2_frontend::resolvers::Advice;
use halo2_frontend::synthesis::constraint::{EqConstraint, EqConstraintGraph};
use halo2_frontend::synthesis::groups::{Group, GroupCell, GroupRegion};
use halo2_frontend::synthesis::regions::RegionIndex;
use halo2_frontend::table::{Any, Column};

fn group(name: &str, region: usize, col: usize, rows: (usize, usize), children: Vec<usize>) -> Group {
    Group {
        name: name.to_string(),
        top_level: region == 0,
        key: None,
        regions: vec![GroupRegion {
            index: RegionIndex(region),
            columns: vec![Column::new(col, Any::Advice)],
            rows: Some(rows),
        }],
        inputs: vec![],
        outputs: vec![],
        children,
    }
}

fn has(cells: &[GroupCell], c: &GroupCell) -> bool {
    cells.iter().any(|x| format!("{x:?}") == format!("{c:?}"))
}

#[test]
fn free_cells_are_lifted_through_the_callers() {
    let groups = vec![
        group("top", 0, 0, (0, 9), vec![1]),
        group("middle", 1, 1, (10, 19), vec![2]),
        group("leaf", 2, 2, (20, 29), vec![]),
    ];
    let map = region_data(&groups);
    let mut graph = EqConstraintGraph::new();
    graph.add(EqConstraint::AnyToAny(Column::new(2, Any::Advice), 20, Column::new(0, Any::Advice), 0));
    let r = lift_free_cells_to_inputs(&groups, &map, &graph);
    assert_eq!(r.len(), 3);
    assert_eq!(r[0].callsites.len(), 1);
    assert_eq!(r[1].callsites.len(), 1);
    assert_eq!(r[2].callsites.len(), 0);
    let cell = GroupCell::AdviceIO((Column::new(0, Advice), 0));
    // The leaf reads a cell of the top group: it becomes one of its inputs.
    assert!(has(&r[2].inputs, &cell));
    // The middle group passes it at its call of the leaf, and takes it as an input itself.
    assert!(r[2].inputs.iter().all(|c| has(&r[1].callsites[0], c)));
    assert!(has(&r[1].inputs, &cell));
    // The top group passes it at its call; the cell is its own, so it is no input of it.
    assert!(r[1].inputs.iter().all(|c| has(&r[0].callsites[0], c)));
    assert!(!has(&r[0].inputs, &cell));
    // The callee's inputs are the last arguments of the call, in their order.
    let tail = |args: &[GroupCell], inputs: &[GroupCell]| {
        args.len() >= inputs.len() && format!("{:?}", &args[args.len() - inputs.len()..]) == format!("{inputs:?}")
    };
    assert!(tail(&r[1].callsites[0], &r[2].inputs));
    assert!(tail(&r[0].callsites[0], &r[1].inputs));
}

#[test]
fn only_the_first_call_to_a_group_gets_arguments() {
    let groups = vec![
        group("top", 0, 0, (0, 9), vec![1, 1]),
        group("leaf", 1, 1, (10, 19), vec![]),
    ];
    let map = region_data(&groups);
    let mut graph = EqConstraintGraph::new();
    graph.add(EqConstraint::AnyToAny(Column::new(1, Any::Advice), 10, Column::new(0, Any::Advice), 0));
    graph.add(EqConstraint::AnyToAny(Column::new(1, Any::Advice), 11, Column::new(0, Any::Advice), 1));
    let r = lift_free_cells_to_inputs(&groups, &map, &graph);
    assert_eq!(r[1].inputs.len(), 2);
    assert_eq!(format!("{:?}", r[0].callsites[0]), format!("{:?}", r[1].inputs));
    assert!(r[0].callsites[1].is_empty());
}

#[test]
fn nothing_is_lifted_without_crossing_edges() {
    let groups = vec![group("top", 0, 0, (0, 9), vec![1]), group("leaf", 1, 1, (10, 19), vec![])];
    let map = region_data(&groups);
    let mut graph = EqConstraintGraph::new();
    graph.add(EqConstraint::AnyToAny(Column::new(1, Any::Advice), 10, Column::new(1, Any::Advice), 11));
    let r = lift_free_cells_to_inputs(&groups, &map, &graph);
    assert!(r.iter().all(|f| f.inputs.is_empty()));
    assert!(r[0].callsites[0].is_empty());
}

#[test]
fn group_bodies_are_assembled_in_order() {
    let mut leaf = group("leaf", 1, 1, (10, 19), vec![]);
    leaf.key = Some(GroupKey(7));
    let groups = vec![group("top", 0, 0, (0, 9), vec![1]), leaf];
    let map = region_data(&groups);
    let mut graph = EqConstraintGraph::new();
    graph.add(EqConstraint::AnyToAny(Column::new(1, Any::Advice), 10, Column::new(0, Any::Advice), 0));
    let free = lift_free_cells_to_inputs(&groups, &map, &graph);
    let lowered = (0..2)
        .map(|i| LoweredGroup {
            io_counts: (i, 0),
            callsites: vec![],
            gates: IRStmt::empty(),
            lookups: IRStmt::empty(),
        })
        .collect();
    let bodies = group_bodies(&groups, &graph, &free, lowered);
    assert_eq!(bodies.len(), 2);
    assert!(bodies[0].is_main());
    assert!(!bodies[1].is_main());
    assert_eq!(bodies[1].id(), 1);
    assert_eq!(bodies[1].name(), "leaf");
    assert_eq!(bodies[1].key(), Some(GroupKey(7)));
}

use std::collections::{HashMap, HashSet};

use halo2_frontend::felt::Felt;
use halo2_frontend::poly::{Query, Rotation};
use halo2_frontend::resolvers::Fixed;
use halo2_frontend::synthesis::regions::fixed::{FixedData, FixedDataError};
use halo2_frontend::synthesis::regions::table::{ColumnMatch, Fill, RowsRequestError, TableData, TableError};
use halo2_frontend::table::Column;

fn felt(n: u64) -> Felt {
    Felt::from_u64(n)
}

fn col(n: usize) -> Column<Fixed> {
    Column::new(n, Fixed)
}

fn q(n: usize) -> Query {
    Query { column_index: n, rotation: Rotation(0) }
}

fn values(v: &[Felt]) -> Vec<u64> {
    v.iter()
        .map(|f| (0..64u64).find(|n| f.is_value(*n)).expect("small value"))
        .collect()
}

fn value_of(v: Option<Felt>) -> Option<u64> {
    v.map(|f| (0..64u64).find(|n| f.is_value(*n)).expect("small value"))
}

#[test]
fn latest_fill_gives_the_value_and_cells_override_fills() {
    let mut data = FixedData::new();
    data.blanket_fill(col(0), 0, Some(felt(1)));
    data.blanket_fill(col(0), 3, Some(felt(2)));
    data.assign_fixed(col(0), 4, Some(felt(7)));
    assert_eq!(value_of(data.resolve_fixed(0, 0)), Some(1));
    assert_eq!(value_of(data.resolve_fixed(0, 2)), Some(1));
    assert_eq!(value_of(data.resolve_fixed(0, 3)), Some(2));
    assert_eq!(value_of(data.resolve_fixed(0, 4)), Some(7));
    assert_eq!(value_of(data.resolve_fixed(0, 9)), Some(2));
    // A column without data is zero.
    assert_eq!(value_of(data.resolve_fixed(5, 9)), Some(0));
    data.assign_fixed(col(0), 4, None);
    assert_eq!(value_of(data.resolve_fixed(0, 4)), None);
}

#[test]
fn subset_keeps_only_the_chosen_columns() {
    let mut data = FixedData::default();
    data.assign_fixed(col(0), 1, Some(felt(4)));
    data.assign_fixed(col(1), 1, Some(felt(5)));
    data.blanket_fill(col(1), 2, Some(felt(6)));
    let mut cols = HashSet::new();
    cols.insert(1usize);
    let sub = data.subset(&cols).unwrap();
    assert_eq!(value_of(sub.resolve_fixed(1, 1)), Some(5));
    assert_eq!(value_of(sub.resolve_fixed(1, 8)), Some(6));
    // Column 0 is not in the subset any more: zero.
    assert_eq!(value_of(sub.resolve_fixed(0, 1)), Some(0));
    cols.insert(3usize);
    assert!(matches!(data.subset(&cols), Err(FixedDataError::MissingColumns)));
}

fn table_of(data: FixedData) -> TableData {
    let (fixed, blanket) = data.take();
    TableData::new(fixed, blanket)
}

#[test]
fn rows_of_a_table() {
    let mut data = FixedData::new();
    for row in 0..4 {
        data.assign_fixed(col(0), row, Some(felt(row as u64)));
        data.assign_fixed(col(1), row, Some(felt(10 + row as u64)));
    }
    data.blanket_fill(col(2), 0, Some(felt(1)));
    data.assign_fixed(col(2), 3, Some(felt(2)));
    let table = table_of(data);
    let rows = table.get_rows(&vec![q(0), q(1)]).unwrap().unwrap();
    assert_eq!(rows.len(), 2);
    assert_eq!(values(&rows[0]), vec![0, 1, 2, 3]);
    assert_eq!(values(&rows[1]), vec![10, 11, 12, 13]);
    // A fill of many rows from row 0 covers the single cell at row 0 of the other column: the
    // two columns do not agree on their size.
    let mut small = FixedData::new();
    small.assign_fixed(col(0), 0, Some(felt(5)));
    small.blanket_fill(col(1), 0, Some(felt(6)));
    let table = table_of(small);
    let rows = table.get_rows(&vec![q(0), q(1)]);
    assert!(matches!(rows, Some(Err(TableError::WrongTableSize))));
    let rows = table.get_rows(&vec![q(1)]).unwrap().unwrap();
    assert_eq!(values(&rows[0]), vec![6]);
}

#[test]
fn columns_must_agree_on_their_size() {
    let mut data = FixedData::new();
    data.assign_fixed(col(0), 0, Some(felt(1)));
    data.assign_fixed(col(0), 1, Some(felt(1)));
    data.assign_fixed(col(1), 0, Some(felt(1)));
    let table = table_of(data);
    assert!(matches!(table.get_rows(&vec![q(0), q(1)]), Some(Err(TableError::WrongTableSize))));
}

#[test]
fn gaps_and_unknown_values_are_errors() {
    let mut data = FixedData::new();
    data.assign_fixed(col(0), 0, Some(felt(1)));
    data.assign_fixed(col(0), 2, Some(felt(1)));
    data.assign_fixed(col(1), 0, None);
    let table = table_of(data);
    assert!(matches!(table.get_rows(&vec![q(0)]), Some(Err(TableError::Gaps))));
    assert!(matches!(table.get_rows(&vec![q(1)]), Some(Err(TableError::UnknownValue))));
}

#[test]
fn missing_columns_are_listed() {
    let mut data = FixedData::new();
    data.assign_fixed(col(0), 0, Some(felt(1)));
    let table = table_of(data);
    match table.check_columns(&vec![q(0), q(4), q(2)]) {
        ColumnMatch::Missing(m) => assert_eq!(m, vec![q(4), q(2)]),
        ColumnMatch::Contained => panic!("columns 4 and 2 are missing"),
    }
    assert!(matches!(table.check_columns(&vec![q(0)]), ColumnMatch::Contained));
    assert!(table.get_rows(&vec![q(0), q(4)]).is_none());
}

#[test]
fn tables_from_raw_maps() {
    let mut cells = HashMap::new();
    cells.insert(0usize, Some(felt(3)));
    cells.insert(1usize, Some(felt(4)));
    let mut fixed = HashMap::new();
    fixed.insert(7usize, cells);
    let mut blanket = HashMap::new();
    blanket.insert(8usize, vec![(0usize, Some(felt(9)))]);
    let table = TableData::new(fixed, blanket);
    let rows = table.get_rows(&vec![q(7)]).unwrap().unwrap();
    assert_eq!(values(&rows[0]), vec![3, 4]);
    assert!(Fill::Single(3, None) == Fill::Many(3, Some(felt(1))));
    assert!(Fill::Single(3, None).row() == 3);
}

#[test]
fn row_requests_are_checked() {
    let mut data = FixedData::new();
    for row in 0..2 {
        data.assign_fixed(col(0), row, Some(felt(row as u64)));
    }
    // A fill of many rows from row 2 and a single cell at row 9 of the same column.
    data.blanket_fill(col(1), 2, Some(felt(1)));
    data.assign_fixed(col(1), 9, Some(felt(3)));
    let table = table_of(data);
    assert!(matches!(table.try_get_rows(&vec![]), Err(RowsRequestError::NoColumns)));
    assert!(table.fits(&vec![q(0)]));
    assert!(!table.fits(&vec![q(1)]));
    assert!(matches!(table.try_get_rows(&vec![q(1)]), Err(RowsRequestError::RowsOutOfRange)));
    assert!(matches!(table.try_get_rows(&vec![q(0), q(5)]), Ok(None)));
    let rows = table.try_get_rows(&vec![q(0)]).unwrap().unwrap().unwrap();
    assert_eq!(values(&rows[0]), vec![0, 1]);
}

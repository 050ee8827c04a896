use halo2_frontend::ir::stmt::IRStmt;
use halo2_frontend::lookups::callbacks::LookupCallbacks;
use halo2_frontend::lookups::table::{LookupTableGenerator, LookupTableRow};
use halo2_frontend::lookups::{Lookup, LookupData, LookupError};
use halo2_frontend::poly::{Expression, Query, Rotation};
use halo2_frontend::temps::{ExprOrTemp, Temps};

fn fixed(col: usize) -> Expression {
    Expression::Fixed(Query { column_index: col, rotation: Rotation(0) })
}

fn advice(col: usize) -> Expression {
    Expression::Advice(Query { column_index: col, rotation: Rotation(0) })
}

fn lookups() -> Vec<Lookup<Expression>> {
    let args0 = vec![advice(0), advice(1)];
    let table0 = vec![fixed(5), fixed(3)];
    let args1 = vec![advice(2)];
    let table1 = vec![advice(4)];
    let data = vec![
        LookupData { name: "range", arguments: &args0, table: &table0 },
        LookupData { name: "bad", arguments: &args1, table: &table1 },
    ];
    Lookup::load(&data)
}

#[test]
fn loaded_lookups_keep_their_order() {
    let l = lookups();
    assert_eq!(l.len(), 2);
    assert_eq!(l[0].name(), "range");
    assert_eq!(l[0].idx(), 0);
    assert_eq!(l[1].name(), "bad");
    assert_eq!(l[1].idx(), 1);
    assert_eq!(l[0].inputs(), &[advice(0), advice(1)]);
    let pairs = l[0].expressions();
    assert_eq!(pairs.len(), 2);
    assert_eq!(pairs[1], (&advice(1), &fixed(3)));
}

#[test]
fn table_queries_must_be_fixed() {
    let l = lookups();
    let qs = l[0].table_queries().unwrap();
    assert_eq!(qs.iter().map(|q| q.column_index).collect::<Vec<_>>(), vec![5, 3]);
    assert_eq!(l[1].table_queries().unwrap_err(), LookupError::NotAFixedQuery);
}

#[test]
fn inputs_by_column() {
    let l = lookups();
    assert_eq!(l[0].expr_for_column(3), Ok(&advice(1)));
    assert_eq!(l[0].expr_for_column(5), Ok(&advice(0)));
    assert_eq!(l[0].expr_for_column(4), Err(LookupError::ColumnNotFound(4)));
    assert_eq!(l[1].expr_for_column(4), Err(LookupError::NotAFixedQuery));
}

#[test]
fn table_rows_are_indexed_by_column() {
    let row = LookupTableRow::new(&[7, 2, 9], vec![10u64, 20, 30]);
    assert_eq!(*row.index(2), 20);
    assert_eq!(*row.index(9), 30);
    assert_eq!(*row.index_query(&Query { column_index: 7, rotation: Rotation(0) }), 10);
    assert_eq!(*row.index_expr(&fixed(9)), 30);
}

struct Table(Vec<LookupTableRow<u64>>);

impl LookupTableGenerator<u64> for Table {
    fn table(&self) -> Result<&[LookupTableRow<u64>], LookupError> {
        Ok(&self.0)
    }
}

/// Asserts that each input is the temporary of its position.
struct ByTemps;

impl LookupCallbacks<u64, Expression> for ByTemps {
    fn on_lookup(
        &self,
        lookup: &Lookup<Expression>,
        table: &dyn LookupTableGenerator<u64>,
        temps: &mut Temps,
    ) -> Result<IRStmt<ExprOrTemp<Expression>>, LookupError> {
        if table.table()?.is_empty() {
            return Err(LookupError::Unspecified);
        }
        let t = temps.next();
        Ok(IRStmt::comment(&format!("{} {}", lookup.name(), t.get())))
    }
}

#[test]
fn default_on_lookups_calls_each_lookup() {
    let l = lookups();
    let full = Table(vec![LookupTableRow::new(&[5, 3], vec![1, 2])]);
    let empty = Table(vec![]);
    let mut temps = Temps::new();
    let s = ByTemps.on_lookups(&l, &[&full, &full], &mut temps).unwrap();
    let mut texts = vec![];
    let mut it = s.into_iter();
    while let Some(stmt) = it.next() {
        match stmt {
            IRStmt::Comment(c) => texts.push(c.value().to_string()),
            _ => panic!("only comments expected"),
        }
    }
    assert_eq!(texts, vec!["range 0".to_string(), "bad 1".to_string()]);
    let mut temps = Temps::new();
    assert_eq!(
        ByTemps.on_lookups(&l, &[&full, &empty], &mut temps).unwrap_err(),
        LookupError::Unspecified
    );
}

# halo2_frontend

A verified library, written in Verus, for the steps that turn what the synthesis of a Halo2
circuit records into an intermediate representation (IR) of the circuit: the regions, fixed
data, tables and copy constraints that synthesis records; the cells lifted into the inputs of
groups; and the assembly of each group's body (`ir::generate::group_bodies`) from its lowered
gates, lookups and calls. The lowering of each gate on each region and of each lookup on each
region row is done in order, over the product of the two lists (`ir::generate::lower_gates`,
`ir::generate::codegen_lookup_invocations`); what lowers one pair goes through rewrite patterns
and callbacks that the user of the library supplies.

Each public function has a contract over a mathematical model of its data. Properties that
relate several calls are stated as public proof functions whose names begin with `law_`.

## Layout

- `src/felt.rs`: field constants of arbitrary size (the arithmetic is done by `num-bigint`).
- `src/poly.rs`, `src/table.rs`, `src/resolvers.rs`: polynomial expressions over the cells of a
  circuit, columns and cells, and what resolving a query gives.
- `src/synthesis/`: what synthesis records: regions and their rows, fixed data and lookup tables,
  groups, the graph of copy constraints, the recorder that a synthesis drives (`synthesizer`),
  and the steps that finish a synthesis (values of fixed cells in copies, tables, rows of lookup
  tables).
- `src/ir/`: the IR: arithmetic and boolean expressions, statements, their constant folding and
  canonicalization (with their soundness), the lowering of polynomials, groups and the calls
  between them, equivalence of groups, and symbolic field values (`lift`).
- `src/support/`: region names, trackers of region indices, the detection of a region's index,
  isolated regions, and the roles of cells.
- `src/lookups/`, `src/temps.rs`, `src/io.rs`: lookups, temporaries, inputs and outputs.
- `src/mock.rs`: a builder of the flat expression lists that a mock backend records.
- `tests/`: tests of the library, run against the compiled crate.

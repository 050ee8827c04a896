//! Variables of the lowered functions: inputs, outputs, cells and temporaries.
use vstd::prelude::*;

verus! {

/// An input, output, cell or temporary of a function of the circuit.
#[derive(Clone, Copy, Debug, PartialEq, Eq, Structural)]
pub enum FuncIO {
    /// The n-th argument of the function.
    Arg(usize),
    /// The n-th output field of the function.
    Field(usize),
    /// An advice cell. `base` is the first row of the region the row is relative to, or
    /// `None` when the row is absolute.
    Advice { col: usize, row: usize, base: Option<usize> },
    /// The n-th output of the c-th call (call number, output number).
    CallOutput(usize, usize),
    /// A temporary variable.
    Temp(usize),
    /// A challenge, by its index.
    Challenge(usize),
}

impl FuncIO {
    /// An advice cell at an absolute row of the circuit.
    pub fn advice_abs(col: usize, row: usize) -> (r: FuncIO)
        ensures
            r == (FuncIO::Advice { col, row, base: None }),
    {
        FuncIO::Advice { col, row, base: None }
    }

    /// An advice cell at an offset from the first row `base` of a region.
    pub fn advice_rel(col: usize, base: usize, offset: usize) -> (r: FuncIO)
        ensures
            r == (FuncIO::Advice { col, row: offset, base: Some(base) }),
    {
        FuncIO::Advice { col, row: offset, base: Some(base) }
    }
}

/// Whether two variables denote the same thing up to the placement of regions: two advice
/// cells relative to a region are equivalent when they are in the same column at the same
/// offset, whatever region they belong to. Other variables are equivalent when equal.
pub open spec fn func_io_equivalent(lhs: FuncIO, rhs: FuncIO) -> bool {
    match (lhs, rhs) {
        (
            FuncIO::Advice { col: c1, row: r1, base: Some(_) },
            FuncIO::Advice { col: c2, row: r2, base: Some(_) },
        ) => c1 == c2 && r1 == r2,
        _ => lhs == rhs,
    }
}

/// Executable form of [`func_io_equivalent`].
pub fn func_io_eqv(lhs: &FuncIO, rhs: &FuncIO) -> (r: bool)
    ensures
        r == func_io_equivalent(*lhs, *rhs),
{
    match (lhs, rhs) {
        (
            FuncIO::Advice { col: c1, row: r1, base: Some(_) },
            FuncIO::Advice { col: c2, row: r2, base: Some(_) },
        ) => *c1 == *c2 && *r1 == *r2,
        _ => *lhs == *rhs,
    }
}

/// Makes an absolute advice cell relative to the first region (a half open range of rows,
/// given by its start and end) that contains its row. Other variables, and cells that no
/// region contains, are returned unchanged.
pub fn relativize_advice_cell(io: FuncIO, regions: &Vec<(usize, usize)>) -> (r: FuncIO)
    ensures
        r == relativized(io, regions@),
{
    match &io {
        FuncIO::Advice { col, row, base: None } => {
            let col = *col;
            let row = *row;
            let mut i: usize = 0;
            while i < regions.len()
                invariant
                    i <= regions.len(),
                    io == (FuncIO::Advice { col, row, base: None }),
                    forall|j: int| 0 <= j < i ==> !(#[trigger] regions@[j].0 <= row < regions@[j].1),
                decreases regions.len() - i,
            {
                let (start, end) = regions[i];
                if start <= row && row < end {
                    proof {
                        assert(first_containing(regions@, row as int) == i as int);
                    }
                    let r = FuncIO::advice_rel(col, start, row - start);
                    return r;
                }
                i = i + 1;
            }
            proof {
                assert(first_containing(regions@, row as int) == -1);
            }
            io
        },
        _ => io,
    }
}

/// Index of the first range that contains `row`, or -1.
pub open spec fn first_containing(regions: Seq<(usize, usize)>, row: int) -> int {
    if exists|j: int| 0 <= j < regions.len() && #[trigger] regions[j].0 <= row < regions[j].1 {
        choose|j: int|
            0 <= j < regions.len() && #[trigger] regions[j].0 <= row < regions[j].1 && forall|k: int|
                0 <= k < j ==> !(#[trigger] regions[k].0 <= row < regions[k].1)
    } else {
        -1
    }
}

/// What [`relativize_advice_cell`] returns.
pub open spec fn relativized(io: FuncIO, regions: Seq<(usize, usize)>) -> FuncIO {
    match io {
        FuncIO::Advice { col, row, base: None } => {
            let j = first_containing(regions, row as int);
            if j >= 0 {
                FuncIO::Advice {
                    col,
                    row: (row - regions[j].0) as usize,
                    base: Some(regions[j].0),
                }
            } else {
                io
            }
        },
        _ => io,
    }
}

} // verus!

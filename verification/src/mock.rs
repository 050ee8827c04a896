//! A stack machine that builds the flat list of expressions that a mock backend records, for
//! writing the expected output of lowering by hand.
use vstd::prelude::*;
use crate::felt::Felt;

verus! {

/// An entry of the flat list of expressions. Operands are positions of earlier entries.
#[derive(Clone, Debug)]
pub enum MockExprIR {
    /// The n-th argument of the function.
    Arg(usize),
    /// The n-th output field of the function.
    Field(usize),
    /// Sum of two entries.
    Sum(usize, usize),
    /// Product of two entries.
    Product(usize, usize),
    /// Negation of an entry.
    Neg(usize),
    /// An entry scaled by another.
    Scaled(usize, usize),
    /// A constant.
    Const(Felt),
    /// An advice cell, by column and row.
    Temp(usize, usize),
    /// A fixed cell, by column and row.
    Fixed(usize, usize),
    /// A constraint that two entries are equal.
    Constraint(usize, usize),
    /// A call of the named function on entries.
    Call(String, Vec<usize>),
}

/// Takes the operand given, or else the top of the stack: the operand and the stack left.
pub open spec fn take_operand(given: Option<usize>, stack: Seq<usize>) -> (usize, Seq<usize>) {
    match given {
        Some(i) => (i, stack),
        None => (stack.last(), stack.drop_last()),
    }
}

/// How many of the operands the stack has to give.
pub open spec fn missing(lhs: Option<usize>, rhs: Option<usize>) -> nat {
    (if lhs is None { 1nat } else { 0nat }) + (if rhs is None { 1nat } else { 0nat })
}

/// Builds a list of expressions. Each pushed entry leaves its position on a stack, from which
/// the operators take their operands.
#[derive(Debug)]
pub struct IRBuilder {
    ir: Vec<MockExprIR>,
    stack: Vec<usize>,
}

impl IRBuilder {
    /// The entries built so far.
    pub closed spec fn entries(&self) -> Seq<MockExprIR> {
        self.ir@
    }

    /// The positions on the stack, the top last.
    pub closed spec fn positions(&self) -> Seq<usize> {
        self.stack@
    }

    /// The operands of an operator with two operands, left and right, and the stack left
    /// once those not given were taken from it.
    pub open spec fn operands(&self, lhs: Option<usize>, rhs: Option<usize>) -> (usize, usize, Seq<usize>) {
        let (r, s1) = take_operand(rhs, self.positions());
        let (l, s2) = take_operand(lhs, s1);
        (l, r, s2)
    }

    /// No entry and an empty stack.
    pub fn new() -> (r: Self)
        ensures
            r.entries().len() == 0,
            r.positions().len() == 0,
    {
        IRBuilder { ir: Vec::new(), stack: Vec::new() }
    }

    /// The entries built.
    pub fn into_exprs(self) -> (r: Vec<MockExprIR>)
        ensures
            r@ == self.entries(),
    {
        self.ir
    }

    fn push_entry(&mut self, e: MockExprIR)
        requires
            old(self).entries().len() < usize::MAX,
        ensures
            final(self).entries() == old(self).entries().push(e),
            final(self).positions() == old(self).positions().push(old(self).entries().len() as usize),
    {
        self.stack.push(self.ir.len());
        self.ir.push(e);
    }

    fn pop(&mut self) -> (r: usize)
        requires
            old(self).positions().len() > 0,
        ensures
            r == old(self).positions().last(),
            final(self).positions() == old(self).positions().drop_last(),
            final(self).entries() == old(self).entries(),
    {
        match self.stack.pop() {
            Some(i) => i,
            None => 0,
        }
    }

    fn operand(&mut self, given: Option<usize>) -> (r: usize)
        requires
            given is None ==> old(self).positions().len() > 0,
        ensures
            (r, final(self).positions()) == take_operand(given, old(self).positions()),
            final(self).entries() == old(self).entries(),
    {
        match given {
            Some(i) => i,
            None => self.pop(),
        }
    }

    /// Pushes a constant.
    pub fn push_const(self, f: Felt) -> (r: Self)
        requires
            self.entries().len() < usize::MAX,
        ensures
            r.entries() == self.entries().push(MockExprIR::Const(f)),
            r.positions() == self.positions().push(self.entries().len() as usize),
    {
        let mut this = self;
        this.push_entry(MockExprIR::Const(f));
        this
    }

    /// Pushes an advice cell, by column and row.
    pub fn push_temp(self, col: usize, row: usize) -> (r: Self)
        requires
            self.entries().len() < usize::MAX,
        ensures
            r.entries() == self.entries().push(MockExprIR::Temp(col, row)),
            r.positions() == self.positions().push(self.entries().len() as usize),
    {
        let mut this = self;
        this.push_entry(MockExprIR::Temp(col, row));
        this
    }

    /// Pushes a fixed cell, by column and row.
    pub fn push_fixed(self, col: usize, row: usize) -> (r: Self)
        requires
            self.entries().len() < usize::MAX,
        ensures
            r.entries() == self.entries().push(MockExprIR::Fixed(col, row)),
            r.positions() == self.positions().push(self.entries().len() as usize),
    {
        let mut this = self;
        this.push_entry(MockExprIR::Fixed(col, row));
        this
    }

    /// Pushes the n-th argument.
    pub fn push_arg(self, idx: usize) -> (r: Self)
        requires
            self.entries().len() < usize::MAX,
        ensures
            r.entries() == self.entries().push(MockExprIR::Arg(idx)),
            r.positions() == self.positions().push(self.entries().len() as usize),
    {
        let mut this = self;
        this.push_entry(MockExprIR::Arg(idx));
        this
    }

    /// Pushes the n-th output field.
    pub fn push_field(self, idx: usize) -> (r: Self)
        requires
            self.entries().len() < usize::MAX,
        ensures
            r.entries() == self.entries().push(MockExprIR::Field(idx)),
            r.positions() == self.positions().push(self.entries().len() as usize),
    {
        let mut this = self;
        this.push_entry(MockExprIR::Field(idx));
        this
    }

    /// The sum of the two entries on top of the stack, which it replaces.
    pub fn sum(self) -> (r: Self)
        requires
            self.positions().len() >= 2,
            self.entries().len() < usize::MAX,
        ensures
            ({
                let (l, r0, rest) = self.operands(None, None);
                r.entries() == self.entries().push(MockExprIR::Sum(l, r0)) && r.positions()
                    == rest.push(self.entries().len() as usize)
            }),
    {
        self.sum_with(None, None)
    }

    /// The product of the two entries on top of the stack, which it replaces.
    pub fn product(self) -> (r: Self)
        requires
            self.positions().len() >= 2,
            self.entries().len() < usize::MAX,
        ensures
            ({
                let (l, r0, rest) = self.operands(None, None);
                r.entries() == self.entries().push(MockExprIR::Product(l, r0)) && r.positions()
                    == rest.push(self.entries().len() as usize)
            }),
    {
        self.product_with(None, None)
    }

    /// A constraint between the two given entries; its position is pushed.
    pub fn constraint(self, lhs: usize, rhs: usize) -> (r: Self)
        requires
            self.entries().len() < usize::MAX,
        ensures
            ({
                let (l, r0, rest) = self.operands(Some(lhs), Some(rhs));
                r.entries() == self.entries().push(MockExprIR::Constraint(l, r0)) && r.positions()
                    == rest.push(self.entries().len() as usize)
            }),
    {
        let mut this = self;
        this.push_entry(MockExprIR::Constraint(lhs, rhs));
        this
    }

    /// The negation of the entry on top of the stack, which it replaces.
    pub fn neg(self) -> (r: Self)
        requires
            self.positions().len() >= 1,
            self.entries().len() < usize::MAX,
        ensures
            r.entries() == self.entries().push(MockExprIR::Neg(self.positions().last())),
            r.positions() == self.positions().drop_last().push(self.entries().len() as usize),
    {
        let mut this = self;
        let idx = this.pop();
        this.push_entry(MockExprIR::Neg(idx));
        this
    }

    /// A sum of the given entries; each operand that is not given is taken from the stack,
    /// the right one first.
    pub fn sum_with(self, lhs: Option<usize>, rhs: Option<usize>) -> (r: Self)
        requires
            self.positions().len() >= missing(lhs, rhs),
            self.entries().len() < usize::MAX,
        ensures
            ({
                let (l, r0, rest) = self.operands(lhs, rhs);
                r.entries() == self.entries().push(MockExprIR::Sum(l, r0)) && r.positions()
                    == rest.push(self.entries().len() as usize)
            }),
    {
        let mut this = self;
        let r = this.operand(rhs);
        let l = this.operand(lhs);
        this.push_entry(MockExprIR::Sum(l, r));
        this
    }

    /// A product of the given entries; each operand that is not given is taken from the
    /// stack, the right one first.
    pub fn product_with(self, lhs: Option<usize>, rhs: Option<usize>) -> (r: Self)
        requires
            self.positions().len() >= missing(lhs, rhs),
            self.entries().len() < usize::MAX,
        ensures
            ({
                let (l, r0, rest) = self.operands(lhs, rhs);
                r.entries() == self.entries().push(MockExprIR::Product(l, r0)) && r.positions()
                    == rest.push(self.entries().len() as usize)
            }),
    {
        let mut this = self;
        let r = this.operand(rhs);
        let l = this.operand(lhs);
        this.push_entry(MockExprIR::Product(l, r));
        this
    }
}

impl Default for IRBuilder {
    fn default() -> (r: Self)
        ensures
            r.entries().len() == 0,
            r.positions().len() == 0,
    {
        Self::new()
    }
}

impl From<IRBuilder> for Vec<MockExprIR> {
    fn from(value: IRBuilder) -> (r: Vec<MockExprIR>)
        ensures
            r@ == value.entries(),
    {
        value.into_exprs()
    }
}

impl vstd::std_specs::convert::FromSpecImpl<IRBuilder> for Vec<MockExprIR> {
    /// No spec function can build a `Vec`; what `from` gives is stated on it instead.
    open spec fn obeys_from_spec() -> bool {
        false
    }

    open spec fn from_spec(v: IRBuilder) -> Vec<MockExprIR> {
        arbitrary()
    }
}

/// The entries that are constraints.
pub open spec fn constraint_count(exprs: Seq<MockExprIR>) -> nat
    decreases exprs.len(),
{
    if exprs.len() == 0 {
        0
    } else {
        constraint_count(exprs.drop_last()) + if exprs.last() is Constraint { 1nat } else { 0nat }
    }
}

/// The numbers `0..n`, in order.
pub open spec fn first_numbers(n: nat) -> Seq<usize> {
    Seq::new(n, |i: int| i as usize)
}

/// A function that a mock backend records: its name, arguments, output fields, and the flat
/// list of its expressions.
#[derive(Clone, Debug)]
pub struct MockFunc {
    /// Name of the function.
    pub name: String,
    /// The arguments, by number.
    pub args: Vec<usize>,
    /// The output fields, by number.
    pub fields: Vec<usize>,
    /// The expressions, in the order they were recorded.
    pub exprs: Vec<MockExprIR>,
}

/// The numbers `0..n` in a vector.
fn numbers(n: usize) -> (r: Vec<usize>)
    ensures
        r@ == first_numbers(n as nat),
{
    let mut out: Vec<usize> = Vec::new();
    let mut i: usize = 0;
    while i < n
        invariant
            i <= n,
            out@ == first_numbers(i as nat),
        decreases n - i,
    {
        out.push(i);
        i = i + 1;
        proof {
            assert(out@ =~= first_numbers(i as nat));
        }
    }
    out
}

impl MockFunc {
    /// A function with no expression yet, the given number of arguments, and the given number
    /// of output fields, if any.
    pub fn new(name: &str, arg_count: usize, field_count: Option<usize>) -> (r: Self)
        ensures
            r.name@ == name@,
            r.args@ == first_numbers(arg_count as nat),
            r.fields@ == match field_count {
                Some(n) => first_numbers(n as nat),
                None => Seq::<usize>::empty(),
            },
            r.exprs@.len() == 0,
    {
        let fields = match field_count {
            Some(n) => numbers(n),
            None => Vec::new(),
        };
        MockFunc { name: name.to_string(), args: numbers(arg_count), fields, exprs: Vec::new() }
    }

    /// How many of the expressions are constraints.
    pub fn constraints_len(&self) -> (r: usize)
        ensures
            r == constraint_count(self.exprs@),
    {
        let mut count: usize = 0;
        let mut i: usize = 0;
        while i < self.exprs.len()
            invariant
                i <= self.exprs@.len(),
                count == constraint_count(self.exprs@.take(i as int)),
                count <= i,
            decreases self.exprs@.len() - i,
        {
            proof {
                assert(self.exprs@.take(i + 1).drop_last() =~= self.exprs@.take(i as int));
            }
            if let MockExprIR::Constraint(_, _) = self.exprs[i] {
                count = count + 1;
            }
            i = i + 1;
        }
        proof {
            assert(self.exprs@.take(i as int) =~= self.exprs@);
        }
        count
    }

    /// Records an expression and gives its position.
    pub fn push_expr(&mut self, expr: MockExprIR) -> (r: usize)
        ensures
            r == old(self).exprs@.len(),
            final(self).exprs@ == old(self).exprs@.push(expr),
            final(self).name == old(self).name,
            final(self).args == old(self).args,
            final(self).fields == old(self).fields,
    {
        let idx = self.exprs.len();
        self.exprs.push(expr);
        idx
    }

    /// Records a constraint between two entries.
    pub fn add_constraint(&mut self, lhs: usize, rhs: usize)
        ensures
            final(self).exprs@ == old(self).exprs@.push(MockExprIR::Constraint(lhs, rhs)),
            final(self).name == old(self).name,
            final(self).args == old(self).args,
            final(self).fields == old(self).fields,
    {
        self.exprs.push(MockExprIR::Constraint(lhs, rhs));
    }

    /// Records a call of the named function on the selectors and then the queries.
    pub fn add_call(&mut self, name: String, selectors: &[usize], queries: &[usize])
        ensures
            final(self).exprs@.len() == old(self).exprs@.len() + 1,
            final(self).exprs@.drop_last() == old(self).exprs@,
            final(self).exprs@.last() matches MockExprIR::Call(n, args) && n == name && args@ == selectors@ + queries@,
            final(self).name == old(self).name,
            final(self).args == old(self).args,
            final(self).fields == old(self).fields,
    {
        let mut args: Vec<usize> = Vec::new();
        let mut i: usize = 0;
        while i < selectors.len()
            invariant
                i <= selectors@.len(),
                args@ == selectors@.take(i as int),
            decreases selectors@.len() - i,
        {
            args.push(selectors[i]);
            i = i + 1;
            proof {
                assert(args@ =~= selectors@.take(i as int));
            }
        }
        let mut j: usize = 0;
        while j < queries.len()
            invariant
                j <= queries@.len(),
                i == selectors@.len(),
                args@ == selectors@.take(i as int) + queries@.take(j as int),
            decreases queries@.len() - j,
        {
            args.push(queries[j]);
            j = j + 1;
            proof {
                assert(args@ =~= selectors@.take(i as int) + queries@.take(j as int));
            }
        }
        proof {
            assert(selectors@.take(i as int) =~= selectors@);
            assert(queries@.take(j as int) =~= queries@);
        }
        let ghost before = self.exprs@;
        self.exprs.push(MockExprIR::Call(name, args));
        proof {
            assert(self.exprs@.drop_last() =~= before);
        }
    }
}

/// What a mock backend outputs: the functions of the gates and the main function, if any.
#[derive(Debug)]
pub struct MockOutput {
    /// The functions of the gates.
    pub gates: Vec<MockFunc>,
    /// The main function.
    pub main: Option<MockFunc>,
}

} // verus!

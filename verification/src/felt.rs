//! Arbitrary precision field constants.
use vstd::prelude::*;
use num_bigint::BigUint;

verus! {

/// Numeric value of a little endian sequence of base 2^32 digits.
pub open spec fn digits_value(s: Seq<u32>) -> nat
    decreases s.len(),
{
    if s.len() == 0 {
        0
    } else {
        s[0] as nat + 4294967296 * digits_value(s.drop_first())
    }
}

/// A constant value, stored as its little endian base 2^32 digits.
///
/// Any sequence of digits is a valid value; trailing zero digits do not change it.
#[derive(Clone, Debug)]
pub struct Felt {
    pub digits: Vec<u32>,
}

impl View for Felt {
    type V = nat;

    open spec fn view(&self) -> nat {
        digits_value(self.digits@)
    }
}

/// `num_bigint::BigUint`'s `+`, on numbers given by their digits.
/// Claims that the digits returned denote the sum of the values of the arguments.
#[verifier::external_body]
fn biguint_add(a: &Vec<u32>, b: &Vec<u32>) -> (r: Vec<u32>)
    ensures
        digits_value(r@) == digits_value(a@) + digits_value(b@),
{
    (BigUint::from_slice(a) + BigUint::from_slice(b)).to_u32_digits()
}

/// `num_bigint::BigUint`'s `*`, on numbers given by their digits.
/// Claims that the digits returned denote the product of the values of the arguments.
#[verifier::external_body]
fn biguint_mul(a: &Vec<u32>, b: &Vec<u32>) -> (r: Vec<u32>)
    ensures
        digits_value(r@) == digits_value(a@) * digits_value(b@),
{
    (BigUint::from_slice(a) * BigUint::from_slice(b)).to_u32_digits()
}

/// `num_bigint::BigUint`'s `%`, on numbers given by their digits. It panics on a zero divisor,
/// which `requires` rules out. Claims that the digits returned denote the remainder.
#[verifier::external_body]
fn biguint_rem(a: &Vec<u32>, b: &Vec<u32>) -> (r: Vec<u32>)
    requires
        digits_value(b@) > 0,
    ensures
        digits_value(r@) == digits_value(a@) % digits_value(b@),
{
    (BigUint::from_slice(a) % BigUint::from_slice(b)).to_u32_digits()
}

/// `num_bigint::BigUint`'s `-`, on numbers given by their digits. It panics when the result
/// would be negative, which `requires` rules out. Claims that the digits returned denote the
/// difference.
#[verifier::external_body]
fn biguint_sub(a: &Vec<u32>, b: &Vec<u32>) -> (r: Vec<u32>)
    requires
        digits_value(a@) >= digits_value(b@),
    ensures
        digits_value(r@) == digits_value(a@) - digits_value(b@),
{
    (BigUint::from_slice(a) - BigUint::from_slice(b)).to_u32_digits()
}

/// `num_bigint::BigUint`'s `<`, on numbers given by their digits.
/// Claims that it compares the values of the arguments.
#[verifier::external_body]
fn biguint_lt(a: &Vec<u32>, b: &Vec<u32>) -> (r: bool)
    ensures
        r == (digits_value(a@) < digits_value(b@)),
{
    BigUint::from_slice(a) < BigUint::from_slice(b)
}

/// `num_bigint::BigUint`'s `==`, on numbers given by their digits.
/// Claims that it compares the values of the arguments.
#[verifier::external_body]
fn biguint_eq(a: &Vec<u32>, b: &Vec<u32>) -> (r: bool)
    ensures
        r == (digits_value(a@) == digits_value(b@)),
{
    BigUint::from_slice(a) == BigUint::from_slice(b)
}

/// Numeric value of a little endian sequence of bytes.
pub open spec fn bytes_value(s: Seq<u8>) -> nat
    decreases s.len(),
{
    if s.len() == 0 {
        0
    } else {
        s[0] as nat + 256 * bytes_value(s.drop_first())
    }
}

/// `num_bigint::BigUint::from_bytes_le`, giving the digits of the number.
/// Claims that the digits returned denote the number whose little endian bytes are given.
#[verifier::external_body]
fn biguint_from_bytes_le(bytes: &[u8]) -> (r: Vec<u32>)
    ensures
        digits_value(r@) == bytes_value(bytes@),
{
    BigUint::from_bytes_le(bytes).to_u32_digits()
}

impl Felt {
    /// Creates a felt from a machine integer.
    pub fn from_u64(v: u64) -> (r: Felt)
        ensures
            r@ == v,
    {
        let lo = (v % 4294967296) as u32;
        let hi = (v / 4294967296) as u32;
        let mut digits: Vec<u32> = Vec::new();
        digits.push(lo);
        digits.push(hi);
        proof {
            assert(digits@.drop_first().drop_first() =~= Seq::<u32>::empty());
            reveal_with_fuel(digits_value, 3);
        }
        Felt { digits }
    }

    /// Creates a felt from the representation of a field element: its little endian bytes, as
    /// a prime field gives them.
    pub fn new(repr: &[u8]) -> (r: Felt)
        ensures
            r@ == bytes_value(repr@),
    {
        Felt { digits: biguint_from_bytes_le(repr) }
    }

    /// Creates the felt whose value is the prime of a field, from the representation of the
    /// field's element `-1` (its little endian bytes): one more than that value.
    pub fn prime(minus_one_repr: &[u8]) -> (r: Felt)
        ensures
            r@ == bytes_value(minus_one_repr@) + 1,
    {
        let f = Felt::new(minus_one_repr);
        f.add(&Felt::from_u64(1))
    }

    /// Creates a felt from a machine integer.
    pub fn from_usize(v: usize) -> (r: Felt)
        ensures
            r@ == v,
    {
        Felt::from_u64(v as u64)
    }

    /// The felt 0.
    pub fn zero() -> (r: Felt)
        ensures
            r@ == 0,
    {
        Felt::from_u64(0)
    }

    /// A copy of the felt with the same value.
    pub fn duplicate(&self) -> (r: Felt)
        ensures
            r@ == self@,
    {
        let mut digits: Vec<u32> = Vec::new();
        let mut i: usize = 0;
        while i < self.digits.len()
            invariant
                i <= self.digits.len(),
                digits@ == self.digits@.subrange(0, i as int),
            decreases self.digits.len() - i,
        {
            digits.push(self.digits[i]);
            i = i + 1;
            proof {
                assert(digits@ =~= self.digits@.subrange(0, i as int));
            }
        }
        proof {
            assert(digits@ =~= self.digits@);
        }
        Felt { digits }
    }

    /// Sum of two felts.
    pub fn add(&self, rhs: &Felt) -> (r: Felt)
        ensures
            r@ == self@ + rhs@,
    {
        Felt { digits: biguint_add(&self.digits, &rhs.digits) }
    }

    /// Product of two felts.
    pub fn mul(&self, rhs: &Felt) -> (r: Felt)
        ensures
            r@ == self@ * rhs@,
    {
        Felt { digits: biguint_mul(&self.digits, &rhs.digits) }
    }

    /// Remainder of the division by `rhs`. A value smaller than `rhs` is returned unchanged.
    pub fn rem(&self, rhs: &Felt) -> (r: Felt)
        requires
            rhs@ > 0,
        ensures
            r@ == self@ % rhs@,
    {
        if self.lt(rhs) {
            proof {
                vstd::arithmetic::div_mod::lemma_small_mod(self@, rhs@);
            }
            self.duplicate()
        } else {
            Felt { digits: biguint_rem(&self.digits, &rhs.digits) }
        }
    }

    /// Replaces the value by its remainder modulo `rhs` when it is greater than `rhs`.
    /// A value equal to `rhs` is kept as it is.
    pub fn rem_assign(&mut self, rhs: &Felt)
        requires
            rhs@ > 0,
        ensures
            final(self)@ == if old(self)@ > rhs@ { old(self)@ % rhs@ } else { old(self)@ },
    {
        if rhs.lt(self) {
            let r = self.rem(rhs);
            *self = r;
        }
    }

    /// Difference of two felts, `None` when it would be negative.
    pub fn sub(&self, rhs: &Felt) -> (r: Option<Felt>)
        ensures
            self@ < rhs@ ==> r is None,
            self@ >= rhs@ ==> (r matches Some(d) && d@ == self@ - rhs@),
    {
        if self.lt(rhs) {
            None
        } else {
            Some(Felt { digits: biguint_sub(&self.digits, &rhs.digits) })
        }
    }

    /// Numeric comparison.
    pub fn lt(&self, rhs: &Felt) -> (r: bool)
        ensures
            r == (self@ < rhs@),
    {
        biguint_lt(&self.digits, &rhs.digits)
    }

    /// Numeric comparison.
    pub fn le(&self, rhs: &Felt) -> (r: bool)
        ensures
            r == (self@ <= rhs@),
    {
        !rhs.lt(self)
    }

    /// Numeric equality.
    pub fn equals(&self, rhs: &Felt) -> (r: bool)
        ensures
            r == (self@ == rhs@),
    {
        biguint_eq(&self.digits, &rhs.digits)
    }

    /// Whether the felt has the given value.
    pub fn is_value(&self, v: u64) -> (r: bool)
        ensures
            r == (self@ == v),
    {
        self.equals(&Felt::from_u64(v))
    }
}

impl PartialEq for Felt {
    fn eq(&self, other: &Felt) -> (r: bool) {
        self.equals(other)
    }
}

impl vstd::std_specs::cmp::PartialEqSpecImpl for Felt {
    open spec fn obeys_eq_spec() -> bool {
        true
    }

    open spec fn eq_spec(&self, other: &Felt) -> bool {
        self@ == other@
    }
}

} // verus!

//! General utility functions.
use vstd::prelude::*;

verus! {

/// The elements of `v` in reverse order.
pub fn reverse_vec<X>(v: Vec<X>) -> (r: Vec<X>)
    ensures
        r@ == v@.reverse(),
{
    let ghost orig = v@;
    let mut v = v;
    let mut r: Vec<X> = Vec::new();
    while v.len() > 0
        invariant
            v@ == orig.subrange(0, v@.len() as int),
            r@.len() + v@.len() == orig.len(),
            forall|k: int| 0 <= k < r@.len() ==> r@[k] == orig[orig.len() - 1 - k],
        decreases v@.len(),
    {
        let x = v.pop().unwrap();
        r.push(x);
    }
    assert(r@ =~= orig.reverse());
    r
}

/// Returns the cartesian product of two lists: the pairs of an element of `lhs` and an
/// element of `rhs`, by element of `lhs` first.
pub fn product<L: Copy, R: Copy>(lhs: &Vec<L>, rhs: &Vec<R>) -> (r: Vec<(L, R)>)
    requires
        lhs@.len() * rhs@.len() <= usize::MAX,
    ensures
        r@.len() == lhs@.len() * rhs@.len(),
        forall|i: int, j: int|
            0 <= i < lhs@.len() && 0 <= j < rhs@.len() ==> #[trigger] r@[i * rhs@.len() + j] == (lhs@[i], rhs@[j]),
{
    let mut out: Vec<(L, R)> = Vec::new();
    let n = rhs.len();
    let mut i: usize = 0;
    while i < lhs.len()
        invariant
            i <= lhs@.len(),
            n == rhs@.len(),
            lhs@.len() * rhs@.len() <= usize::MAX,
            out@.len() == i * n,
            forall|a: int, b: int| 0 <= a < i && 0 <= b < n ==> #[trigger] out@[a * n + b] == (lhs@[a], rhs@[b]),
        decreases lhs@.len() - i,
    {
        let mut j: usize = 0;
        let ghost before = out@;
        while j < n
            invariant
                i < lhs@.len(),
                j <= n,
                n == rhs@.len(),
                out@.len() == i * n + j,
                forall|k: int| 0 <= k < i * n ==> out@[k] == before[k],
                before.len() == i * n,
                forall|b: int| 0 <= b < j ==> #[trigger] out@[i * n + b] == (lhs@[i as int], rhs@[b]),
            decreases n - j,
        {
            proof {
                assert(i * n + j < (i + 1) * n) by (nonlinear_arith) requires j < n;
                assert((i + 1) * n <= lhs@.len() * n) by (nonlinear_arith) requires i + 1 <= lhs@.len();
            }
            out.push((lhs[i], rhs[j]));
            j = j + 1;
        }
        proof {
            assert((i + 1) * n == i * n + n) by (nonlinear_arith);
            assert forall|a: int, b: int| 0 <= a < i + 1 && 0 <= b < n implies #[trigger] out@[a * n + b] == (lhs@[a], rhs@[b]) by {
                if a < i {
                    assert(a * n + b < i * n) by (nonlinear_arith) requires a < i, b < n, 0 <= b;
                    assert(out@[a * n + b] == before[a * n + b]);
                } else {
                    assert(a == i);
                }
            }
        }
        i = i + 1;
    }
    out
}

} // verus!

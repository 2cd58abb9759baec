//! Arithmetic sequences.
use vstd::prelude::*;
use crate::sequences::arithmetic_terms;

verus! {

/// The first `n` terms of `a, a + d, a + 2d, ...`; the last one must fit in a machine word.
pub fn arithmetic(a: usize, d: usize, n: usize) -> (r: Vec<usize>)
    requires
        n == 0 || a + (n - 1) * d <= usize::MAX,
    ensures
        r.len() == n,
        forall|i: int| 0 <= i < n ==> #[trigger] r@[i] == a + i * d,
{
    arithmetic_terms(a, d, n)
}

} // verus!

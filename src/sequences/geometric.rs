//! Geometric sequences.
use vstd::prelude::*;
use crate::model::power;
use crate::sequences::geometric_terms;

verus! {

/// The terms `a * r^(n - 1)` for `n` from `n_start` to `n_end` inclusive. Needs
/// `1 <= n_start < n_end`, `r >= 1`, and the largest power and term to fit in a machine word.
pub fn geometric(a: usize, r: usize, n_start: usize, n_end: usize) -> (v: Vec<usize>)
    requires
        1 <= n_start < n_end,
        r >= 1,
        power(r as nat, (n_end - 1) as nat) <= usize::MAX,
        a * power(r as nat, (n_end - 1) as nat) <= usize::MAX,
    ensures
        v.len() == n_end - n_start + 1,
        forall|i: int| 0 <= i < v.len() ==> #[trigger] v@[i] == a * power(r as nat, (n_start - 1 + i) as nat),
{
    geometric_terms(a, r, n_start, n_end)
}

} // verus!

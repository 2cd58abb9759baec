//! The `p`-th powers of the first `n` positive integers, whose sums Faulhaber's formula gives.
use vstd::prelude::*;
use crate::common::to_power;
use crate::model::{lemma_power_grows_with_base, power};

verus! {

/// The powers `1^p, 2^p, ..., n^p`; the last one must fit in a machine word.
pub fn faulhabers(n: &usize, p: &usize) -> (r: Vec<usize>)
    requires
        *n == 0 || power(*n as nat, *p as nat) <= usize::MAX,
    ensures
        r.len() == *n,
        forall|i: int| 0 <= i < r.len() ==> #[trigger] r@[i] == power((i + 1) as nat, *p as nat),
{
    let count: usize = *n;
    let mut result: Vec<usize> = Vec::new();
    let mut k: usize = 0;
    while k < count
        invariant
            k <= count,
            count == *n,
            count == 0 || power(count as nat, *p as nat) <= usize::MAX,
            result.len() == k,
            forall|i: int| 0 <= i < k ==> #[trigger] result@[i] == power((i + 1) as nat, *p as nat),
        decreases count - k,
    {
        let index: usize = k + 1;
        proof {
            lemma_power_grows_with_base(index as nat, count as nat, *p as nat);
        }
        result.push(to_power(&index, p));
        k = k + 1;
    }
    result
}

} // verus!

//! Triangular numbers `0, 1, 3, 6, 10, ...`.
use vstd::prelude::*;
use crate::model::triangular;

verus! {

/// The first `number_of_triangulars` triangular numbers, from 0; at least one must be asked
/// for, and `n * (n + 1)` must fit in a machine word for each `n` below the count.
pub fn triangular_numbers(number_of_triangulars: usize) -> (r: Vec<usize>)
    requires
        number_of_triangulars >= 1,
        (number_of_triangulars - 1) * number_of_triangulars <= usize::MAX,
    ensures
        r.len() == number_of_triangulars,
        forall|i: int| 0 <= i < r.len() ==> #[trigger] r@[i] == triangular(i as nat),
{
    triangular_terms(number_of_triangulars)
}

/// The triangular numbers `n * (n + 1) / 2` for `n` in `[0, count)`.
pub(crate) fn triangular_terms(count: usize) -> (r: Vec<usize>)
    requires
        count >= 1,
        (count - 1) * count <= usize::MAX,
    ensures
        r.len() == count,
        forall|i: int| 0 <= i < r.len() ==> #[trigger] r@[i] == triangular(i as nat),
{
    let mut result: Vec<usize> = Vec::new();
    let mut n: usize = 0;
    while n < count
        invariant
            n <= count,
            count >= 1,
            (count - 1) * count <= usize::MAX,
            result.len() == n,
            forall|i: int| 0 <= i < n ==> #[trigger] result@[i] == triangular(i as nat),
        decreases count - n,
    {
        proof {
            assert(n * (n + 1) <= (count - 1) * count) by (nonlinear_arith)
                requires n + 1 <= count;
        }
        result.push(n * (n + 1) / 2);
        n = n + 1;
    }
    result
}

/// The `nth` triangular number counting from 1 (`nth_triangular(1) == 0`); `nth` must be at
/// least 1 and `nth * (nth - 1)` must fit in a machine word.
pub fn nth_triangular(nth: usize) -> (r: usize)
    requires
        nth >= 1,
        nth * (nth - 1) <= usize::MAX,
    ensures
        r == triangular((nth - 1) as nat),
{
    proof {
        assert(nth * (nth - 1) == (nth - 1) * nth) by (nonlinear_arith);
    }
    nth * (nth - 1) / 2
}

} // verus!

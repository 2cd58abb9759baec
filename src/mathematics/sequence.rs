//! Triangular numbers.
use vstd::prelude::*;
use crate::model::triangular;
use crate::sequences::triangular_numbers::triangular_terms;

verus! {

/// The first `number_of_triangulars` triangular numbers `0, 1, 3, 6, ...`; at least one must
/// be asked for, and `n * (n + 1)` must fit in a machine word for each `n` below the count.
pub fn triangular_numbers(number_of_triangulars: usize) -> (r: Vec<usize>)
    requires
        number_of_triangulars >= 1,
        (number_of_triangulars - 1) * number_of_triangulars <= usize::MAX,
    ensures
        r.len() == number_of_triangulars,
        forall|i: int| 0 <= i < r.len() ==> #[trigger] r@[i] == triangular(i as nat),
{
    triangular_terms(number_of_triangulars)
}

/// The last of the first `nth` triangular numbers: `triangular(nth - 1)`.
pub fn nth_triangular(nth: usize) -> (r: usize)
    requires
        nth >= 1,
        (nth - 1) * nth <= usize::MAX,
    ensures
        r == triangular((nth - 1) as nat),
{
    let triangulars_list = triangular_numbers(nth);
    triangulars_list[triangulars_list.len() - 1]
}

} // verus!

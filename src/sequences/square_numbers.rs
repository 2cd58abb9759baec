//! Square numbers.
use vstd::prelude::*;
use crate::sequences::square_terms;

verus! {

/// The squares `0, 1, 4, ...` of the first `number_of_squares` integers.
pub fn square_numbers(number_of_squares: &usize) -> (r: Vec<usize>)
    requires
        *number_of_squares == 0 || (*number_of_squares - 1) * (*number_of_squares - 1) <= usize::MAX,
    ensures
        r.len() == *number_of_squares,
        forall|i: int| 0 <= i < r.len() ==> #[trigger] r@[i] == i * i,
{
    square_terms(*number_of_squares)
}

} // verus!

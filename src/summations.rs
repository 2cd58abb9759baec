//! Sums over the even or the odd entries of an array.
use vstd::prelude::*;
use crate::common::sum_by_parity;
use crate::model::sum_with_parity;

verus! {

/// The sum of the even numbers in `array`; the sum must fit in a machine word.
pub fn sum_even(array: &Vec<usize>) -> (r: usize)
    requires
        sum_with_parity(array@, 0) <= usize::MAX,
    ensures
        r == sum_with_parity(array@, 0),
{
    sum_by_parity(array.as_slice(), 0)
}

/// The sum of the odd numbers in `array`; the sum must fit in a machine word.
pub fn sum_odd(array: &Vec<usize>) -> (r: usize)
    requires
        sum_with_parity(array@, 1) <= usize::MAX,
    ensures
        r == sum_with_parity(array@, 1),
{
    sum_by_parity(array.as_slice(), 1)
}

} // verus!

//! Factors and prime factors of a number.
use vstd::prelude::*;
use crate::common::{divisors_of, prime_divisors_of};
use crate::primality::prime;

verus! {

/// The factors of `number` in ascending order, 1 and `number` included. (For 0 the result
/// is `[1, 0]`.)
pub fn factors(number: usize) -> (r: Vec<usize>)
    ensures
        number == 0 ==> r@ == seq![1usize, 0usize],
        number >= 1 ==> forall|i: int, j: int| 0 <= i < j < r.len() ==> #[trigger] r@[i] < #[trigger] r@[j],
        number >= 1 ==> forall|x: usize| #[trigger] r@.contains(x) <==> (1 <= x <= number && number % x == 0),
{
    divisors_of(number)
}

/// The prime factors of `number` in ascending order; `number` must be at least 2.
pub fn factors_prime(number: usize) -> (r: Vec<usize>)
    requires
        number >= 2,
    ensures
        r.len() >= 1,
        forall|i: int, j: int| 0 <= i < j < r.len() ==> #[trigger] r@[i] < #[trigger] r@[j],
        forall|x: usize| #[trigger] r@.contains(x) <==> (prime(x as int) && number % x == 0),
{
    prime_divisors_of(number)
}

} // verus!

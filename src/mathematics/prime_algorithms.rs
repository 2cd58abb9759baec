//! The largest prime factor of a number, and the `n`-th prime.
use vstd::prelude::*;
use crate::common::prime_divisors_of;
use crate::primality::{prime, primes_upto};
use crate::primes::is_nth_prime;
use crate::sequences::nth_prime_by_search;

verus! {

/// The largest prime that divides `number`; 0 for 0 and 1.
pub fn biggest_prime_factor(number: usize) -> (r: usize)
    ensures
        number < 2 ==> r == 0,
        number >= 2 ==> prime(r as int) && number % r == 0,
        number >= 2 ==> forall|q: usize| prime(q as int) && number % q == 0 ==> q <= r,
{
    if number < 2 {
        return 0;
    }
    let divisors = prime_divisors_of(number);
    let r = divisors[divisors.len() - 1];
    proof {
        assert(divisors@.contains(r));
        assert forall|q: usize| prime(q as int) && number % q == 0 implies q <= r by {
            assert(divisors@.contains(q));
            let j = choose|j: int| 0 <= j < divisors.len() && divisors@[j] == q;
            if j < divisors.len() - 1 {
                assert(divisors@[j] < divisors@[divisors.len() - 1]);
            }
        }
    }
    r
}

/// The `n`-th prime counting from 1; 0 for `n == 0`. The `n`-th prime must be below
/// `usize::MAX - 1`.
pub fn nth_prime(n: usize) -> (r: usize)
    requires
        n == 0 || primes_upto(usize::MAX - 2).len() >= n,
    ensures
        n == 0 ==> r == 0,
        n >= 1 ==> is_nth_prime(n as int, r as int),
{
    if n == 0 {
        return 0;
    }
    nth_prime_by_search(n)
}

} // verus!

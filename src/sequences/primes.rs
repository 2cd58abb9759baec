//! Primes up to a bound, the `n`-th prime, and primality.
use vstd::prelude::*;
use crate::primality::{as_ints, is_prime_by_trial, prime, primes_upto, sieve_primes};
use crate::primes::is_nth_prime;
use crate::sequences::nth_prime_by_search;

verus! {

/// The primes in `[0, until]`, ascending, by the sieve of Eratosthenes; `until` must be at
/// least 2.
pub fn primes(until: usize) -> (r: Vec<usize>)
    requires
        2 <= until < usize::MAX,
    ensures
        as_ints(r@) == primes_upto(until as int),
{
    sieve_primes(until)
}

/// The `nth` prime, counting from 1. The `nth` prime must be below `usize::MAX - 1`.
pub fn nth_prime(nth: usize) -> (r: usize)
    requires
        nth >= 1,
        primes_upto(usize::MAX - 2).len() >= nth,
    ensures
        is_nth_prime(nth as int, r as int),
{
    nth_prime_by_search(nth)
}

/// Whether `number` is prime.
pub fn is_prime(number: usize) -> (r: bool)
    ensures
        r == prime(number as int),
{
    is_prime_by_trial(number)
}

} // verus!

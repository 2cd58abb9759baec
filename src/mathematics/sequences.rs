//! Triangular numbers, primes below a bound, the `n`-th prime, Fibonacci numbers and
//! geometric sequences.
use vstd::prelude::*;
use crate::common::power_of;
use crate::model::{fib, lemma_power_grows_with_exponent, power, triangular};
use crate::primality::{as_ints, lemma_primes_upto_facts, lemma_primes_upto_rank, primes_upto, sieve_primes};
use crate::primes::is_nth_prime;
use crate::sequences::{fibonacci_below, fibonacci_term_below};
use crate::sequences::triangular_numbers::triangular_terms;

verus! {

/// The first `number_of_triangulars` triangular numbers `0, 1, 3, 6, ...`; at least one must
/// be asked for, and `n * (n + 1)` must fit in a machine word for each `n` below the count.
pub fn triangular_numbers(number_of_triangulars: usize) -> (r: Vec<usize>)
    requires
        number_of_triangulars >= 1,
        (number_of_triangulars - 1) * number_of_triangulars <= usize::MAX,
    ensures
        r.len() == number_of_triangulars,
        forall|i: int| 0 <= i < r.len() ==> #[trigger] r@[i] == triangular(i as nat),
{
    triangular_terms(number_of_triangulars)
}

/// The last of the first `nth` triangular numbers: `triangular(nth - 1)`.
pub fn nth_triangular(nth: usize) -> (r: usize)
    requires
        nth >= 1,
        (nth - 1) * nth <= usize::MAX,
    ensures
        r == triangular((nth - 1) as nat),
{
    let triangulars_list = triangular_numbers(nth);
    triangulars_list[triangulars_list.len() - 1]
}

/// The primes below `until`, ascending; `until` must be at least 3.
pub fn primes(until: usize) -> (r: Vec<usize>)
    requires
        until >= 3,
    ensures
        as_ints(r@) == primes_upto(until - 1),
{
    sieve_primes(until - 1)
}

/// The `nth` prime, read from the primes below `12 * nth`, which must hold at least `nth`.
pub fn nth_prime(nth: usize) -> (r: usize)
    requires
        nth >= 1,
        12 * nth <= usize::MAX,
        primes_upto(12 * nth - 1).len() >= nth,
    ensures
        is_nth_prime(nth as int, r as int),
{
    let list = primes(nth * 12);
    proof {
        lemma_primes_upto_facts(12 * nth - 1);
        lemma_primes_upto_rank(12 * nth - 1, nth - 1);
        assert(as_ints(list@)[nth - 1] == list@[nth - 1] as int);
    }
    list[nth - 1]
}

/// The Fibonacci numbers `1, 1, 2, 3, 5, ...` below `until`; `until` must be at least 2.
pub fn fibonacci(until: usize) -> (r: Vec<usize>)
    requires
        until >= 2,
    ensures
        r.len() >= 2,
        forall|i: int| 0 <= i < r.len() ==> #[trigger] r@[i] == fib(i as nat) && r@[i] < until,
        fib(r.len() as nat) >= until,
{
    fibonacci_below(until)
}

/// The `nth` Fibonacci number, counting from 1, taken from the Fibonacci numbers below
/// 1.8 * 10^19 (a bound that needs a 64-bit machine word).
pub fn nth_fibonacci(nth: usize) -> (r: usize)
    requires
        nth >= 1,
        fib((nth - 1) as nat) < 18_000_000_000_000_000_000,
        usize::MAX >= 18_000_000_000_000_000_000,
    ensures
        r == fib((nth - 1) as nat),
{
    fibonacci_term_below(nth, 18_000_000_000_000_000_000u64 as usize)
}

/// The terms `a * r^(n - 1)` for `n` from `n_start` to `n_end` inclusive. Needs
/// `1 <= n_start < n_end`, `r >= 2`, and the largest power and term to fit in a machine word.
pub fn geometric_sequence(a: usize, r: usize, n_start: usize, n_end: usize) -> (v: Vec<usize>)
    requires
        1 <= n_start < n_end,
        r >= 2,
        power(r as nat, (n_end - 1) as nat) <= usize::MAX,
        a * power(r as nat, (n_end - 1) as nat) <= usize::MAX,
    ensures
        v.len() == n_end - n_start + 1,
        forall|i: int| 0 <= i < v.len() ==> #[trigger] v@[i] == a * power(r as nat, (n_start - 1 + i) as nat),
{
    crate::sequences::geometric_terms(a, r, n_start, n_end)
}

} // verus!

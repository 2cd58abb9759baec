//! Integer sequences: arithmetic, geometric, Fibonacci, squares, triangular numbers and primes.
use vstd::prelude::*;
use crate::common::power_of;
use crate::model::{fib, lemma_fib_increases, lemma_fib_positive, lemma_power_grows_with_exponent, power};
use crate::primality::{as_ints, is_prime_by_trial, lemma_primes_upto_prefix, prime, primes_upto, sieve_primes};
use crate::primes::is_nth_prime;

pub mod arithmetic;
pub mod faulhabers;
pub mod fibonacci;
pub mod geometric;
pub mod primes;
pub mod square_numbers;
pub mod squares;
pub mod triangular_numbers;

verus! {

/// The first `n` terms of the arithmetic sequence `a, a + d, a + 2d, ...`; the last one must
/// fit in a machine word.
pub fn arithmetic(a: &usize, d: &usize, n: &usize) -> (r: Vec<usize>)
    requires
        *n == 0 || *a + (*n - 1) * *d <= usize::MAX,
    ensures
        r.len() == *n,
        forall|i: int| 0 <= i < *n ==> #[trigger] r@[i] == *a + i * *d,
{
    arithmetic_terms(*a, *d, *n)
}

/// The terms `a + i * d` for `i` in `[0, n)`.
pub(crate) fn arithmetic_terms(a: usize, d: usize, n: usize) -> (r: Vec<usize>)
    requires
        n == 0 || a + (n - 1) * d <= usize::MAX,
    ensures
        r.len() == n,
        forall|i: int| 0 <= i < n ==> #[trigger] r@[i] == a + i * d,
{
    let mut result: Vec<usize> = Vec::new();
    let mut index: usize = 0;
    while index < n
        invariant
            index <= n,
            n == 0 || a + (n - 1) * d <= usize::MAX,
            result.len() == index,
            forall|i: int| 0 <= i < index ==> #[trigger] result@[i] == a + i * d,
        decreases n - index,
    {
        proof {
            assert(a + index * d <= a + (n - 1) * d) by (nonlinear_arith)
                requires index <= n - 1;
        }
        result.push(a + index * d);
        index = index + 1;
    }
    result
}

/// The Fibonacci numbers `1, 1, 2, 3, 5, ...` below `until`; `until` must be at least 2.
pub fn fibonacci(until: usize) -> (r: Vec<usize>)
    requires
        until >= 2,
    ensures
        r.len() >= 2,
        forall|i: int| 0 <= i < r.len() ==> #[trigger] r@[i] == fib(i as nat) && r@[i] < until,
        fib(r.len() as nat) >= until,
{
    fibonacci_below(until)
}

/// The Fibonacci numbers below `until`, in order.
pub(crate) fn fibonacci_below(until: usize) -> (r: Vec<usize>)
    requires
        until >= 2,
    ensures
        r.len() >= 2,
        forall|i: int| 0 <= i < r.len() ==> #[trigger] r@[i] == fib(i as nat) && r@[i] < until,
        fib(r.len() as nat) >= until,
{
    let mut array: Vec<usize> = vec![1, 1];
    assert(fib(0) == 1 && fib(1) == 1);
    loop
        invariant
            array.len() >= 2,
            forall|i: int| 0 <= i < array.len() ==> #[trigger] array@[i] == fib(i as nat) && array@[i] < until,
        ensures
            array.len() >= 2,
            forall|i: int| 0 <= i < array.len() ==> #[trigger] array@[i] == fib(i as nat) && array@[i] < until,
            fib(array.len() as nat) >= until,
        decreases until - array@[array.len() - 1],
    {
        let n = array.len();
        let last = array[n - 1];
        let prev = array[n - 2];
        assert(fib(n as nat) == fib((n - 1) as nat) + fib((n - 2) as nat));
        if last >= until - prev {
            break;
        }
        proof { lemma_fib_positive((n - 2) as nat); }
        array.push(last + prev);
    }
    array
}

/// The `nth` Fibonacci number (`nth_fibonacci(1) == nth_fibonacci(2) == 1`), taken from the
/// Fibonacci numbers below 10^18 (a bound that needs a 64-bit machine word).
pub fn nth_fibonacci(nth: usize) -> (r: usize)
    requires
        nth >= 1,
        fib((nth - 1) as nat) < 1_000_000_000_000_000_000,
        usize::MAX >= 1_000_000_000_000_000_000,
    ensures
        r == fib((nth - 1) as nat),
{
    fibonacci_term_below(nth, 1_000_000_000_000_000_000u64 as usize)
}

/// The `nth` Fibonacci number, read from the list of those below `until`.
pub(crate) fn fibonacci_term_below(nth: usize, until: usize) -> (r: usize)
    requires
        nth >= 1,
        until >= 2,
        fib((nth - 1) as nat) < until,
    ensures
        r == fib((nth - 1) as nat),
{
    let list = fibonacci_below(until);
    if nth - 1 >= list.len() {
        proof {
            if nth - 1 > list.len() {
                lemma_fib_increases(list.len() as nat, (nth - 1) as nat);
            }
        }
        assert(false);
    }
    list[nth - 1]
}

/// The terms `a * r^(n - 1)` for `n` from `n_start` to `n_end` inclusive. Needs
/// `1 <= n_start < n_end`, `r >= 1`, and the last term to fit in a machine word.
pub fn geometric(a: &usize, r: &usize, n_start: &usize, n_end: &usize) -> (v: Vec<usize>)
    requires
        1 <= *n_start < *n_end,
        *r >= 1,
        power(*r as nat, (*n_end - 1) as nat) <= usize::MAX,
        *a * power(*r as nat, (*n_end - 1) as nat) <= usize::MAX,
    ensures
        v.len() == *n_end - *n_start + 1,
        forall|i: int| 0 <= i < v.len() ==> #[trigger] v@[i] == *a * power(*r as nat, (*n_start - 1 + i) as nat),
{
    geometric_terms(*a, *r, *n_start, *n_end)
}

/// The terms `a * r^(n - 1)` for `n` in `[n_start, n_end]`.
pub(crate) fn geometric_terms(a: usize, r: usize, n_start: usize, n_end: usize) -> (v: Vec<usize>)
    requires
        1 <= n_start < n_end,
        r >= 1,
        power(r as nat, (n_end - 1) as nat) <= usize::MAX,
        a * power(r as nat, (n_end - 1) as nat) <= usize::MAX,
    ensures
        v.len() == n_end - n_start + 1,
        forall|i: int| 0 <= i < v.len() ==> #[trigger] v@[i] == a * power(r as nat, (n_start - 1 + i) as nat),
{
    let count: usize = n_end - n_start + 1;
    let mut vector: Vec<usize> = Vec::new();
    let mut k: usize = 0;
    while k < count
        invariant
            1 <= n_start < n_end,
            r >= 1,
            count == n_end - n_start + 1,
            power(r as nat, (n_end - 1) as nat) <= usize::MAX,
            a * power(r as nat, (n_end - 1) as nat) <= usize::MAX,
            k <= count,
            vector.len() == k,
            forall|i: int| 0 <= i < k ==> #[trigger] vector@[i] == a * power(r as nat, (n_start - 1 + i) as nat),
        decreases count - k,
    {
        let e: usize = n_start - 1 + k;
        proof {
            lemma_power_grows_with_exponent(r as nat, e as nat, (n_end - 1) as nat);
            let small = power(r as nat, e as nat);
            let big = power(r as nat, (n_end - 1) as nat);
            assert(a * small <= a * big) by (nonlinear_arith)
                requires small <= big;
        }
        let p = power_of(r, e);
        vector.push(a * p);
        k = k + 1;
    }
    vector
}

/// The primes below `until`, ascending; `until` must be at least 3.
pub fn primes(until: usize) -> (r: Vec<usize>)
    requires
        until >= 3,
    ensures
        as_ints(r@) == primes_upto(until - 1),
{
    sieve_primes(until - 1)
}

/// The `nth` prime, counting from 1. The `nth` prime must be below `usize::MAX - 1`.
pub fn nth_prime(nth: usize) -> (r: usize)
    requires
        nth >= 1,
        primes_upto(usize::MAX - 2).len() >= nth,
    ensures
        is_nth_prime(nth as int, r as int),
{
    nth_prime_by_search(nth)
}

/// An even number above 2 is not prime.
proof fn lemma_even_not_prime(n: int)
    requires
        n > 2,
        n % 2 == 0,
    ensures
        !prime(n),
{
}

/// The `nth` prime, found by testing the odd numbers from 3 on in turn.
pub(crate) fn nth_prime_by_search(nth: usize) -> (r: usize)
    requires
        nth >= 1,
        primes_upto(usize::MAX - 2).len() >= nth,
    ensures
        is_nth_prime(nth as int, r as int),
{
    assert(prime(2) && !prime(1) && !prime(0));
    reveal_with_fuel(primes_upto, 3);
    let mut count: usize = 1;
    let mut current: usize = 2;
    let mut number: usize = 3;
    while count < nth
        invariant
            1 <= count <= nth,
            nth <= primes_upto(usize::MAX - 2).len(),
            3 <= number,
            number % 2 == 1,
            count == primes_upto(number - 1).len(),
            is_nth_prime(count as int, current as int),
        decreases usize::MAX - number,
    {
        proof {
            if number - 1 >= usize::MAX - 2 {
                lemma_primes_upto_prefix(usize::MAX - 2, number - 1);
            }
        }
        if is_prime_by_trial(number) {
            count = count + 1;
            current = number;
        }
        proof {
            lemma_even_not_prime(number + 1);
            assert(primes_upto(number as int) == if prime(number as int) {
                primes_upto(number - 1).push(number as int)
            } else {
                primes_upto(number - 1)
            });
            assert(primes_upto(number + 1) == primes_upto(number as int));
        }
        number = number + 2;
    }
    current
}

/// Whether `number` is prime.
pub fn is_prime(number: &usize) -> (r: bool)
    ensures
        r == prime(*number as int),
{
    is_prime_by_trial(*number)
}

/// The squares `0, 1, 4, ...` of the first `number_of_squares` integers.
pub fn square_numbers(number_of_squares: &usize) -> (r: Vec<usize>)
    requires
        *number_of_squares == 0 || (*number_of_squares - 1) * (*number_of_squares - 1) <= usize::MAX,
    ensures
        r.len() == *number_of_squares,
        forall|i: int| 0 <= i < r.len() ==> #[trigger] r@[i] == i * i,
{
    square_terms(*number_of_squares)
}

/// The squares of the integers in `[0, n)`.
pub(crate) fn square_terms(n: usize) -> (r: Vec<usize>)
    requires
        n == 0 || (n - 1) * (n - 1) <= usize::MAX,
    ensures
        r.len() == n,
        forall|i: int| 0 <= i < r.len() ==> #[trigger] r@[i] == i * i,
{
    let mut result: Vec<usize> = Vec::new();
    let mut index: usize = 0;
    while index < n
        invariant
            index <= n,
            n == 0 || (n - 1) * (n - 1) <= usize::MAX,
            result.len() == index,
            forall|i: int| 0 <= i < index ==> #[trigger] result@[i] == i * i,
        decreases n - index,
    {
        proof {
            assert(index * index <= (n - 1) * (n - 1)) by (nonlinear_arith)
                requires index <= n - 1;
        }
        result.push(index * index);
        index = index + 1;
    }
    result
}

} // verus!

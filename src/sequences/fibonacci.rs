//! Fibonacci numbers.
use vstd::prelude::*;
use crate::model::fib;
use crate::sequences::{fibonacci_below, fibonacci_term_below};

verus! {

/// The Fibonacci numbers `1, 1, 2, 3, 5, ...` below `until`; `until` must be at least 2.
pub fn fibonacci(until: usize) -> (r: Vec<usize>)
    requires
        until >= 2,
    ensures
        r.len() >= 2,
        forall|i: int| 0 <= i < r.len() ==> #[trigger] r@[i] == fib(i as nat) && r@[i] < until,
        fib(r.len() as nat) >= until,
{
    fibonacci_below(until)
}

/// The `nth` Fibonacci number, counting from 1, taken from the Fibonacci numbers below
/// 10^18 (a bound that needs a 64-bit machine word).
pub fn nth_fibonacci(nth: usize) -> (r: usize)
    requires
        nth >= 1,
        fib((nth - 1) as nat) < 1_000_000_000_000_000_000,
        usize::MAX >= 1_000_000_000_000_000_000,
    ensures
        r == fib((nth - 1) as nat),
{
    fibonacci_term_below(nth, 1_000_000_000_000_000_000u64 as usize)
}

} // verus!

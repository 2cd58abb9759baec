//! Prime computations that report their result as a message-carrying outcome with the time
//! they took.
use vstd::prelude::*;
use crate::clock::{clock_elapsed, clock_start};
use crate::primality::{as_ints, prime, primes_upto};
use crate::primes::{is_nth_prime, nth_prime_reachable, PrimeError};
use crate::{ERABool, ERAMath};

verus! {

/// Primes up to a bound, the `n`-th prime and primality, each timed.
pub trait ERAPrimeTrait {
    /// The primes in `[0, until]`, ascending; an error message for a bound below 2.
    fn primes(until: usize) -> (r: ERAMath<Vec<usize>>)
        requires
            until < usize::MAX,
        ensures
            until < 2 ==> (r.result matches Err(m) && m@ == "Err: there are no prime numbers under 2."@),
            until >= 2 ==> (r.result matches Ok(v) && as_ints(v@) == primes_upto(until as int)),
    ;

    /// The `nth` prime counting from 1; an error message for 0, or where the sieve bound that
    /// is tried holds fewer than `nth` primes.
    fn nth_prime(nth: usize) -> (r: ERAMath<usize>)
        ensures
            nth == 0 ==> (r.result matches Err(m) && m@ == "Err: There is no 0th prime number."@),
            nth > 0 && nth_prime_reachable(nth as nat) ==> (r.result matches Ok(p) && is_nth_prime(nth as int, p as int)),
            nth > 0 && !nth_prime_reachable(nth as nat) ==> (r.result matches Err(m)
                && m@ == "Err: the estimated bound holds fewer primes than asked for."@),
    ;

    /// Whether `number` is prime.
    fn is_prime(number: usize) -> (r: ERABool)
        ensures
            r.result == Ok::<bool, String>(prime(number as int)),
    ;
}

/// The timed prime computations.
pub struct ERAPrime;

impl ERAPrimeTrait for ERAPrime {
    fn primes(until: usize) -> (r: ERAMath<Vec<usize>>) {
        let start_time = clock_start();
        let result = match crate::primes::primes(until) {
            Ok(v) => Ok(v),
            Err(_) => Err("Err: there are no prime numbers under 2.".to_string()),
        };
        let duration = clock_elapsed(&start_time);
        ERAMath::new(result, duration)
    }

    fn nth_prime(nth: usize) -> (r: ERAMath<usize>) {
        let start_time = clock_start();
        let result = match crate::primes::nth_prime(nth) {
            Ok(p) => Ok(p),
            Err(PrimeError::InvalidIndex) => Err("Err: There is no 0th prime number.".to_string()),
            Err(_) => Err("Err: the estimated bound holds fewer primes than asked for.".to_string()),
        };
        let duration = clock_elapsed(&start_time);
        ERAMath::new(result, duration)
    }

    fn is_prime(number: usize) -> (r: ERABool) {
        let start_time = clock_start();
        let result = crate::primality::is_prime_by_trial(number);
        let duration = clock_elapsed(&start_time);
        ERABool::new(Ok(result), duration)
    }
}

} // verus!

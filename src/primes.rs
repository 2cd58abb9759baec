//! Prime generation, the `n`-th prime and primality, as results that callers can inspect.
use vstd::prelude::*;
use crate::primality::{
    as_ints, is_prime_by_trial, lemma_primes_upto_facts, lemma_primes_upto_prefix,
    lemma_primes_upto_rank, prime, primes_upto, sieve_primes,
};

verus! {

/// Why a prime computation gave no result.
#[derive(Debug, Clone, Copy, PartialEq, Eq, Structural)]
pub enum PrimeError {
    /// The sieve bound is below 2: no prime lies in `[0, bound]`.
    InvalidBound,
    /// The index 0 was asked for: the first prime has index 1.
    InvalidIndex,
    /// The estimated sieve bound held fewer primes than the index asked for.
    IndexOutOfRange,
}

/// The outcome that `primes(until)` owes: the primes in `[0, until]`, ascending.
pub open spec fn primes_spec(until: int) -> Result<Seq<int>, PrimeError> {
    if until < 2 {
        Err(PrimeError::InvalidBound)
    } else {
        Ok(primes_upto(until))
    }
}

/// A result of `primes`, with the vector read as a sequence of integers.
pub open spec fn primes_view(r: Result<Vec<usize>, PrimeError>) -> Result<Seq<int>, PrimeError> {
    match r {
        Ok(v) => Ok(as_ints(v@)),
        Err(e) => Err(e),
    }
}

/// `p` is the `n`-th prime (counting from 1): `p` is prime and exactly `n` primes lie in `[0, p]`.
pub open spec fn is_nth_prime(n: int, p: int) -> bool {
    prime(p) && primes_upto(p).len() == n
}

/// The number of binary digits of `n` (0 for 0).
pub open spec fn bit_length(n: nat) -> nat
    decreases n,
{
    if n == 0 {
        0
    } else {
        1 + bit_length(n / 2)
    }
}

/// The sieve bound that `nth_prime` uses for index `n`: `2 n (1 + floor(log2 n))`, which is
/// never below `2 n ln n`.
pub open spec fn nth_prime_bound(n: nat) -> nat {
    2 * n * bit_length(n)
}

/// `nth_prime(n)` succeeds: `n` is 1 or 2, or the bound fits in a machine word and the sieve up
/// to it holds at least `n` primes.
pub open spec fn nth_prime_reachable(n: nat) -> bool {
    1 <= n <= 2 || (n >= 3 && nth_prime_bound(n) < usize::MAX && primes_upto(
        nth_prime_bound(n) as int,
    ).len() >= n)
}

/// What `nth_prime(nth)` owes: `InvalidIndex` for 0; the `nth` prime where the index is
/// reachable; `IndexOutOfRange` otherwise.
pub open spec fn nth_prime_spec(nth: nat, r: Result<usize, PrimeError>) -> bool {
    &&& nth == 0 ==> r == Err::<usize, PrimeError>(PrimeError::InvalidIndex)
    &&& nth > 0 && nth_prime_reachable(nth) ==> (r matches Ok(p) && is_nth_prime(nth as int, p as int))
    &&& nth > 0 && !nth_prime_reachable(nth) ==> r == Err::<usize, PrimeError>(PrimeError::IndexOutOfRange)
}

/// Generates the primes in `[0, until]` in ascending order, by the sieve of Eratosthenes.
/// A bound below 2 is refused with `InvalidBound`.
pub fn primes(until: usize) -> (r: Result<Vec<usize>, PrimeError>)
    requires
        until < usize::MAX,
    ensures
        primes_view(r) == primes_spec(until as int),
        r matches Ok(v) ==> forall|k: int| 0 <= k < v.len() ==> #[trigger] prime(v@[k] as int),
        r matches Ok(v) ==> forall|j: int, k: int| 0 <= j < k < v.len() ==> #[trigger] v@[j] < #[trigger] v@[k],
{
    if until < 2 {
        return Err(PrimeError::InvalidBound);
    }
    let v = sieve_primes(until);
    proof {
        lemma_primes_upto_facts(until as int);
        assert forall|k: int| 0 <= k < v.len() implies #[trigger] prime(v@[k] as int) by {
            assert(as_ints(v@)[k] == v@[k] as int);
        }
        assert forall|j: int, k: int| 0 <= j < k < v.len() implies #[trigger] v@[j] < #[trigger] v@[k] by {
            assert(as_ints(v@)[j] == v@[j] as int);
            assert(as_ints(v@)[k] == v@[k] as int);
        }
    }
    Ok(v)
}

/// The number of binary digits of `n`.
fn bit_length_of(n: usize) -> (bits: usize)
    ensures
        bits == bit_length(n as nat),
{
    let mut m: usize = n;
    let mut bits: usize = 0;
    while m > 0
        invariant
            bits + bit_length(m as nat) == bit_length(n as nat),
            bits + m <= n,
        decreases m,
    {
        bits = bits + 1;
        m = m / 2;
    }
    bits
}

/// The first two primes, which `nth_prime` gives without sieving.
proof fn lemma_first_primes()
    ensures
        is_nth_prime(1, 2),
        is_nth_prime(2, 3),
{
    assert(prime(2));
    assert(prime(3));
    assert(!prime(1));
    reveal_with_fuel(primes_upto, 4);
}

/// Finds the `nth` prime, counting from 1 (the first prime is 2).
///
/// The index 0 is refused with `InvalidIndex`. Beyond the first two primes, the primes up to
/// `nth_prime_bound(nth)` are sieved; where that bound does not fit in a machine word, or the
/// sieve holds fewer than `nth` primes, the result is `IndexOutOfRange`.
pub fn nth_prime(nth: usize) -> (r: Result<usize, PrimeError>)
    ensures
        nth_prime_spec(nth as nat, r),
{
    if nth == 0 {
        return Err(PrimeError::InvalidIndex);
    }
    if nth == 1 {
        proof { lemma_first_primes(); }
        return Ok(2);
    }
    if nth == 2 {
        proof { lemma_first_primes(); }
        return Ok(3);
    }
    let bits = bit_length_of(nth);
    let bound = match bits.checked_add(bits) {
        Some(factor) => match nth.checked_mul(factor) {
            Some(b) => b,
            None => {
                proof {
                    assert(nth * factor == nth_prime_bound(nth as nat)) by (nonlinear_arith)
                        requires factor == 2 * bits, bits == bit_length(nth as nat);
                }
                return Err(PrimeError::IndexOutOfRange);
            },
        },
        None => {
            proof {
                assert(nth_prime_bound(nth as nat) >= bits + bits) by (nonlinear_arith)
                    requires nth >= 3, bits == bit_length(nth as nat);
            }
            return Err(PrimeError::IndexOutOfRange);
        },
    };
    proof {
        assert(bound == nth_prime_bound(nth as nat)) by (nonlinear_arith)
            requires bound == nth * (bits + bits), bits == bit_length(nth as nat);
    }
    if bound == usize::MAX {
        return Err(PrimeError::IndexOutOfRange);
    }
    let found = sieve_primes(bound);
    if found.len() < nth {
        return Err(PrimeError::IndexOutOfRange);
    }
    let p = found[nth - 1];
    proof {
        assert(as_ints(found@)[nth - 1] == p as int);
        lemma_primes_upto_facts(bound as int);
        lemma_primes_upto_rank(bound as int, nth - 1);
    }
    Ok(p)
}

/// Decides whether `number` is prime. Never fails.
pub fn is_prime(number: usize) -> (r: Result<bool, PrimeError>)
    ensures
        r == Ok::<bool, PrimeError>(prime(number as int)),
{
    Ok(is_prime_by_trial(number))
}


/// Primality agrees with the sieve: for every number up to a bound of at least 2, what
/// `is_prime` returns says whether `primes` lists the number.
pub proof fn law_primality_matches_sieve(number: int, bound: int, r: Result<bool, PrimeError>)
    requires
        0 <= number <= bound,
        2 <= bound,
        r == Ok::<bool, PrimeError>(prime(number)),
    ensures
        primes_spec(bound) matches Ok(s) && r == Ok::<bool, PrimeError>(s.contains(number)),
{
    lemma_primes_upto_facts(bound);
}

/// The `n`-th prime is the entry at position `n - 1` of the primes up to any bound that holds
/// at least `n` primes.
pub proof fn lemma_nth_prime_position(n: int, p: int, bound: int)
    requires
        n >= 1,
        is_nth_prime(n, p),
        primes_upto(bound).len() >= n,
    ensures
        primes_spec(bound) matches Ok(s) && s[n - 1] == p,
{
    if bound < 2 {
        assert(primes_upto(bound).len() == 0);
    }
    assert(primes_upto(p)[n - 1] == p);
    if p <= bound {
        lemma_primes_upto_prefix(p, bound);
        assert(primes_upto(p)[n - 1] == primes_upto(bound).subrange(0, n)[n - 1]);
    } else {
        lemma_primes_upto_prefix(bound, p);
        assert(primes_upto(bound)[n - 1] == primes_upto(p).subrange(0, primes_upto(bound).len() as int)[n - 1]);
    }
}

/// `nth_prime` agrees with `primes`: what `nth_prime(n)` returns for `n >= 1` is the entry at
/// position `n - 1` of the primes up to any bound that holds at least `n` primes.
pub proof fn law_nth_prime_matches_sieve(n: nat, r: Result<usize, PrimeError>, bound: int)
    requires
        n >= 1,
        nth_prime_spec(n, r),
        r is Ok,
        primes_upto(bound).len() >= n,
    ensures
        primes_spec(bound) matches Ok(s) && s[n - 1] == r->Ok_0 as int,
{
    lemma_nth_prime_position(n as int, r->Ok_0 as int, bound);
}

/// There is one `n`-th prime.
pub proof fn law_nth_prime_unique(n: int, p: int, q: int)
    requires
        is_nth_prime(n, p),
        is_nth_prime(n, q),
    ensures
        p == q,
{
    lemma_nth_prime_position(n, p, q);
    assert(primes_upto(q)[n - 1] == q);
}

/// Two calls of `primes` with one bound give one outcome.
pub proof fn law_primes_repeatable(until: int, r1: Result<Vec<usize>, PrimeError>, r2: Result<Vec<usize>, PrimeError>)
    requires
        primes_view(r1) == primes_spec(until),
        primes_view(r2) == primes_spec(until),
    ensures
        primes_view(r1) == primes_view(r2),
{
}

/// Two calls of `nth_prime` with one index give one outcome.
pub proof fn law_nth_prime_repeatable(nth: nat, r1: Result<usize, PrimeError>, r2: Result<usize, PrimeError>)
    requires
        nth_prime_spec(nth, r1),
        nth_prime_spec(nth, r2),
    ensures
        r1 == r2,
{
    if nth > 0 && nth_prime_reachable(nth) {
        law_nth_prime_unique(nth as int, r1->Ok_0 as int, r2->Ok_0 as int);
    }
}

/// Two calls of `is_prime` with one number give one outcome.
pub proof fn law_is_prime_repeatable(number: int, r1: Result<bool, PrimeError>, r2: Result<bool, PrimeError>)
    requires
        r1 == Ok::<bool, PrimeError>(prime(number)),
        r2 == Ok::<bool, PrimeError>(prime(number)),
    ensures
        r1 == r2,
{
}

} // verus!

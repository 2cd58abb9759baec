//! Lemmas on divisors shared by the factor and prime-factor functions.
use vstd::prelude::*;
use crate::primality::{lemma_divides_transitive, lemma_small_divisor, prime};

verus! {

/// A proper divisor of `n` is at most `n / 2`.
pub proof fn lemma_proper_divisor_at_most_half(n: int, x: int)
    requires
        1 <= x < n,
        n % x == 0,
    ensures
        x <= n / 2,
{
    let k = n / x;
    assert(n == x * k) by {
        vstd::arithmetic::div_mod::lemma_fundamental_div_mod(n, x);
    }
    assert(2 * x <= n) by (nonlinear_arith)
        requires n == x * k, 1 <= x < n;
}

/// Every number of at least 2 has a prime divisor.
pub proof fn lemma_has_prime_divisor(n: int) -> (p: int)
    requires
        n >= 2,
    ensures
        prime(p),
        n % p == 0,
        p <= n,
    decreases n,
{
    if prime(n) {
        vstd::arithmetic::div_mod::lemma_mod_self_0(n);
        n
    } else {
        let d = lemma_small_divisor(n);
        assert(d < n) by (nonlinear_arith)
            requires 2 <= d, d * d <= n;
        let p = lemma_has_prime_divisor(d);
        lemma_divides_transitive(n, d, p);
        p
    }
}

} // verus!

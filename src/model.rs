//! Mathematical definitions of the sums, powers and sequences that the contracts speak of.
use vstd::prelude::*;

verus! {

/// `b` raised to the power `e`.
pub open spec fn power(b: nat, e: nat) -> nat
    decreases e,
{
    if e == 0 {
        1
    } else {
        b * power(b, (e - 1) as nat)
    }
}

/// The sum of the entries of `s`.
pub open spec fn sum_of(s: Seq<usize>) -> nat
    decreases s.len(),
{
    if s.len() == 0 {
        0
    } else {
        sum_of(s.drop_last()) + s.last() as nat
    }
}

/// The sum of the entries of `s` whose remainder by 2 is `parity`.
pub open spec fn sum_with_parity(s: Seq<usize>, parity: nat) -> nat
    decreases s.len(),
{
    if s.len() == 0 {
        0
    } else if s.last() % 2 == parity {
        sum_with_parity(s.drop_last(), parity) + s.last() as nat
    } else {
        sum_with_parity(s.drop_last(), parity)
    }
}

/// The Fibonacci numbers as this crate counts them: `fib(0) == fib(1) == 1`.
pub open spec fn fib(i: nat) -> nat
    decreases i,
{
    if i < 2 {
        1
    } else {
        fib((i - 1) as nat) + fib((i - 2) as nat)
    }
}

/// The divisors of `n` in `[lo, hi)`, ascending.
pub open spec fn divisors_in(n: int, lo: int, hi: int) -> Seq<int>
    decreases hi - lo,
{
    if hi <= lo {
        seq![]
    } else if n % (hi - 1) == 0 {
        divisors_in(n, lo, hi - 1).push(hi - 1)
    } else {
        divisors_in(n, lo, hi - 1)
    }
}

/// The `n`-th triangular number counted from 0: `0, 1, 3, 6, ...`.
pub open spec fn triangular(n: nat) -> nat {
    n * (n + 1) / 2
}

/// Raising to a power grows with the exponent, for a base of at least 1.
pub proof fn lemma_power_grows_with_exponent(b: nat, e1: nat, e2: nat)
    requires
        b >= 1,
        e1 <= e2,
    ensures
        power(b, e1) <= power(b, e2),
    decreases e2,
{
    if e1 < e2 {
        lemma_power_grows_with_exponent(b, e1, (e2 - 1) as nat);
        lemma_power_positive(b, (e2 - 1) as nat);
        let q = power(b, (e2 - 1) as nat);
        assert(q <= b * q) by (nonlinear_arith)
            requires b >= 1, q >= 1;
    }
}

/// Raising to a power grows with the base.
pub proof fn lemma_power_grows_with_base(b1: nat, b2: nat, e: nat)
    requires
        b1 <= b2,
    ensures
        power(b1, e) <= power(b2, e),
    decreases e,
{
    if e > 0 {
        lemma_power_grows_with_base(b1, b2, (e - 1) as nat);
        let q1 = power(b1, (e - 1) as nat);
        let q2 = power(b2, (e - 1) as nat);
        assert(b1 * q1 <= b2 * q2) by (nonlinear_arith)
            requires b1 <= b2, q1 <= q2;
    }
}

/// A positive base has positive powers.
pub proof fn lemma_power_positive(b: nat, e: nat)
    requires
        b >= 1,
    ensures
        power(b, e) >= 1,
    decreases e,
{
    if e > 0 {
        lemma_power_positive(b, (e - 1) as nat);
        let q = power(b, (e - 1) as nat);
        assert(b * q >= 1) by (nonlinear_arith)
            requires b >= 1, q >= 1;
    }
}

/// A sum over a prefix is at most the sum over the whole.
pub proof fn lemma_sum_of_prefix(s: Seq<usize>, k: int)
    requires
        0 <= k <= s.len(),
    ensures
        sum_of(s.subrange(0, k)) <= sum_of(s),
    decreases s.len() - k,
{
    if k < s.len() {
        lemma_sum_of_prefix(s, k + 1);
        assert(s.subrange(0, k + 1).drop_last() =~= s.subrange(0, k));
    } else {
        assert(s.subrange(0, k) =~= s);
    }
}

/// A sum of the entries of one parity over a prefix is at most that over the whole.
pub proof fn lemma_sum_with_parity_prefix(s: Seq<usize>, parity: nat, k: int)
    requires
        0 <= k <= s.len(),
    ensures
        sum_with_parity(s.subrange(0, k), parity) <= sum_with_parity(s, parity),
    decreases s.len() - k,
{
    if k < s.len() {
        lemma_sum_with_parity_prefix(s, parity, k + 1);
        assert(s.subrange(0, k + 1).drop_last() =~= s.subrange(0, k));
    } else {
        assert(s.subrange(0, k) =~= s);
    }
}

/// From index 1 on, the Fibonacci numbers strictly increase.
pub proof fn lemma_fib_increases(i: nat, j: nat)
    requires
        1 <= i < j,
    ensures
        fib(i) < fib(j),
    decreases j,
{
    if i < j - 1 {
        lemma_fib_increases(i, (j - 1) as nat);
    }
    assert(fib((j - 2) as nat) >= 1) by {
        lemma_fib_positive((j - 2) as nat);
    }
}

/// Every Fibonacci number is at least 1.
pub proof fn lemma_fib_positive(i: nat)
    ensures
        fib(i) >= 1,
    decreases i,
{
    if i >= 2 {
        lemma_fib_positive((i - 1) as nat);
    }
}

} // verus!

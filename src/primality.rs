//! The mathematics of primes that the contracts of this crate are stated in,
//! with the lemmas that connect it to the executable code.
use vstd::prelude::*;

verus! {

/// `n` is prime: at least 2, and no integer in `[2, n)` divides it.
pub open spec fn prime(n: int) -> bool {
    n >= 2 && forall|d: int| 2 <= d < n ==> #[trigger] (n % d) != 0
}

/// No divisor `d` of `n` with `2 <= d < p` and `d * d <= n`.
pub open spec fn no_factor_below(n: int, p: int) -> bool {
    forall|d: int| 2 <= d < p && d * d <= n ==> #[trigger] (n % d) != 0
}

/// The primes in `[0, n]`, in ascending order.
pub open spec fn primes_upto(n: int) -> Seq<int>
    decreases n,
{
    if n < 2 {
        seq![]
    } else if prime(n) {
        primes_upto(n - 1).push(n)
    } else {
        primes_upto(n - 1)
    }
}

/// A sequence of machine integers read as mathematical integers.
pub open spec fn as_ints(v: Seq<usize>) -> Seq<int> {
    v.map_values(|x: usize| x as int)
}

/// If `d` divides `n` and `k` divides `d`, then `k` divides `n`.
pub proof fn lemma_divides_transitive(n: int, d: int, k: int)
    requires
        n >= 0,
        d > 0,
        k > 0,
        n % d == 0,
        d % k == 0,
    ensures
        n % k == 0,
{
    let a = n / d;
    let b = d / k;
    assert(n == d * a) by {
        vstd::arithmetic::div_mod::lemma_fundamental_div_mod(n, d);
    }
    assert(d == k * b) by {
        vstd::arithmetic::div_mod::lemma_fundamental_div_mod(d, k);
    }
    assert(n == k * (b * a)) by (nonlinear_arith)
        requires
            n == d * a,
            d == k * b,
    ;
    vstd::arithmetic::div_mod::lemma_mod_multiples_basic(b * a, k);
    assert(k * (b * a) == (b * a) * k) by (nonlinear_arith);
}

/// A number of at least 2 that is not prime has a divisor `d >= 2` with `d * d <= n`.
pub proof fn lemma_small_divisor(n: int) -> (d: int)
    requires
        n >= 2,
        !prime(n),
    ensures
        2 <= d,
        d * d <= n,
        n % d == 0,
{
    let d0 = choose|d: int| 2 <= d < n && #[trigger] (n % d) == 0;
    let e = n / d0;
    assert(n == d0 * e) by {
        vstd::arithmetic::div_mod::lemma_fundamental_div_mod(n, d0);
    }
    if d0 * d0 <= n {
        d0
    } else {
        assert(e >= 2 && e * e <= n) by (nonlinear_arith)
            requires
                n == d0 * e,
                2 <= d0 < n,
                d0 * d0 > n,
        ;
        assert(n % e == 0) by {
            assert(n == e * d0) by (nonlinear_arith)
                requires
                    n == d0 * e,
            ;
            vstd::arithmetic::div_mod::lemma_mod_multiples_basic(d0, e);
        }
        e
    }
}

/// Primality is the absence of a divisor up to the square root.
pub proof fn lemma_prime_iff_no_small_factor(n: int)
    requires
        n >= 2,
    ensures
        prime(n) <==> no_factor_below(n, n + 1),
{
    if prime(n) {
        assert forall|d: int| 2 <= d < n + 1 && d * d <= n implies #[trigger] (n % d) != 0 by {
            assert(d < n) by (nonlinear_arith)
                requires
                    2 <= d,
                    d * d <= n,
            ;
        }
    }
    if !prime(n) {
        let d = lemma_small_divisor(n);
        assert(d <= n) by (nonlinear_arith)
            requires
                2 <= d,
                d * d <= n,
        ;
    }
}


/// Marks which of `0..=until` are prime, by the sieve of Eratosthenes.
pub fn sieve_marks(until: usize) -> (marks: Vec<bool>)
    requires
        until < usize::MAX,
    ensures
        marks.len() == until + 1,
        forall|i: int| 0 <= i <= until ==> #[trigger] marks@[i] == prime(i),
{
    let mut marks: Vec<bool> = vec![true; until + 1];
    marks[0] = false;
    if until >= 1 {
        marks[1] = false;
    }
    let mut number: usize = 2;
    while until >= 4 && number <= until / number
        invariant
            2 <= number,
            marks.len() == until + 1,
            forall|i: int| 0 <= i <= until ==> #[trigger] marks@[i] == (i >= 2 && no_factor_below(i, number as int)),
        decreases until - number,
    {
        proof {
            assert(number * number <= until) by (nonlinear_arith)
                requires number <= until / number, number >= 2;
            assert(number < until) by (nonlinear_arith)
                requires number * number <= until, number >= 2;
        }
        let ghost p = number as int;
        if marks[number] {
            let mut multiple: usize = number * number;
            proof { vstd::arithmetic::div_mod::lemma_mod_multiples_basic(p, p); }
            while multiple <= until
                invariant
                    2 <= p == number,
                    p * p <= until,
                    p * p <= multiple <= until + 1,
                    multiple as int % p == 0 || multiple == until + 1,
                    marks.len() == until + 1,
                    forall|i: int| 0 <= i <= until ==> #[trigger] marks@[i] == (i >= 2 && no_factor_below(i, p)
                        && !(i % p == 0 && p * p <= i && i < multiple)),
                decreases until + 1 - multiple,
            {
                marks[multiple] = false;
                if until - multiple < number {
                    proof { lemma_next_multiple(p, multiple as int, until as int); }
                    multiple = until + 1;
                } else {
                    proof {
                        vstd::arithmetic::div_mod::lemma_mod_adds(multiple as int, p, p);
                        vstd::arithmetic::div_mod::lemma_mod_self_0(p);
                        lemma_next_multiple(p, multiple as int, (multiple + number - 1) as int);
                    }
                    multiple = multiple + number;
                }
            }
            assert forall|i: int| 0 <= i <= until implies #[trigger] marks@[i] == (i >= 2 && no_factor_below(i, p + 1)) by {
                if i >= 2 && no_factor_below(i, p) && !(i % p == 0 && p * p <= i) {
                    assert forall|d: int| 2 <= d < p + 1 && d * d <= i implies #[trigger] (i % d) != 0 by {
                    }
                }
            }
        } else {
            proof {
                let q = lemma_small_divisor_below(p);
                assert forall|i: int| 0 <= i <= until implies #[trigger] marks@[i] == (i >= 2 && no_factor_below(i, p + 1)) by {
                    if i >= 2 && no_factor_below(i, p) && i % p == 0 && p * p <= i {
                        lemma_divides_transitive(i, p, q);
                        assert(q * q <= i) by (nonlinear_arith)
                            requires q * q <= p, 2 <= p, p * p <= i;
                        assert(i % q != 0);
                    }
                    if i >= 2 && no_factor_below(i, p) && !(i % p == 0 && p * p <= i) {
                        assert forall|d: int| 2 <= d < p + 1 && d * d <= i implies #[trigger] (i % d) != 0 by {
                        }
                    }
                }
            }
        }
        number = number + 1;
    }
    proof {
        let n = number as int;
        assert(until < 4 || n * n > until) by (nonlinear_arith)
            requires until < 4 || n > (until as int) / n, n >= 2;
        assert forall|i: int| 0 <= i <= until implies #[trigger] marks@[i] == prime(i) by {
            if i >= 2 {
                lemma_prime_iff_no_small_factor(i);
                if no_factor_below(i, n) {
                    assert forall|d: int| 2 <= d < i + 1 && d * d <= i implies #[trigger] (i % d) != 0 by {
                        assert(d < n) by (nonlinear_arith)
                            requires d * d <= i, i <= until, until < 4 || n * n > until, 2 <= d, n >= 2;
                    }
                }
                if no_factor_below(i, i + 1) {
                    assert forall|d: int| 2 <= d < n && d * d <= i implies #[trigger] (i % d) != 0 by {
                        assert(d < i + 1) by (nonlinear_arith)
                            requires d * d <= i, 2 <= d;
                    }
                }
            }
        }
    }
    marks
}

/// Between two consecutive multiples of `p` lies no other multiple of `p`.
proof fn lemma_next_multiple(p: int, m: int, top: int)
    requires
        p >= 1,
        m >= 0,
        m % p == 0,
        m <= top < m + p,
    ensures
        forall|i: int| m < i <= top ==> #[trigger] (i % p) != 0,
{
    assert forall|i: int| m < i <= top implies #[trigger] (i % p) != 0 by {
        vstd::arithmetic::div_mod::lemma_fundamental_div_mod(m, p);
        vstd::arithmetic::div_mod::lemma_fundamental_div_mod(i, p);
        let a = m / p;
        let b = i / p;
        assert(0 <= i % p < p) by { vstd::arithmetic::div_mod::lemma_mod_bound(i, p); }
        if i % p == 0 {
            assert(false) by (nonlinear_arith)
                requires m == p * a, i == p * b, m < i, i < m + p, p >= 1;
        }
    }
}

/// A number `p >= 2` with a divisor in `[2, p)` has one whose square is at most `p`.
proof fn lemma_small_divisor_below(p: int) -> (q: int)
    requires
        p >= 2,
        !no_factor_below(p, p),
    ensures
        2 <= q < p,
        q * q <= p,
        p % q == 0,
{
    let q = choose|d: int| 2 <= d < p && d * d <= p && #[trigger] (p % d) == 0;
    q
}


/// The primes in `[0, until]`, in ascending order, read off the sieve.
pub fn sieve_primes(until: usize) -> (r: Vec<usize>)
    requires
        until < usize::MAX,
    ensures
        as_ints(r@) == primes_upto(until as int),
{
    let marks = sieve_marks(until);
    let mut r: Vec<usize> = Vec::new();
    let mut i: usize = 0;
    while i <= until
        invariant
            i <= until + 1,
            until < usize::MAX,
            marks.len() == until + 1,
            forall|j: int| 0 <= j <= until ==> #[trigger] marks@[j] == prime(j),
            as_ints(r@) == primes_upto(i - 1),
        decreases until + 1 - i,
    {
        let ghost before = r@;
        if marks[i] {
            r.push(i);
            assert(as_ints(r@) =~= as_ints(before).push(i as int));
        }
        i = i + 1;
    }
    r
}

/// Every entry of `primes_upto(n)` is a prime in `[2, n]`, the entries ascend strictly,
/// and every prime in `[0, n]` is among them.
pub proof fn lemma_primes_upto_facts(n: int)
    ensures
        forall|k: int| 0 <= k < primes_upto(n).len() ==> prime(#[trigger] primes_upto(n)[k]) && primes_upto(n)[k] <= n,
        forall|j: int, k: int| 0 <= j < k < primes_upto(n).len() ==> #[trigger] primes_upto(n)[j] < #[trigger] primes_upto(n)[k],
        forall|x: int| #[trigger] primes_upto(n).contains(x) <==> (prime(x) && x <= n),
    decreases n,
{
    if n >= 2 {
        lemma_primes_upto_facts(n - 1);
        let prev = primes_upto(n - 1);
        if prime(n) {
            assert forall|x: int| #[trigger] primes_upto(n).contains(x) <==> (prime(x) && x <= n) by {
                if x == n {
                    assert(primes_upto(n)[prev.len() as int] == n);
                }
                if prime(x) && x <= n && x != n {
                    assert(prev.contains(x));
                    let k = choose|k: int| 0 <= k < prev.len() && prev[k] == x;
                    assert(primes_upto(n)[k] == x);
                }
                if primes_upto(n).contains(x) {
                    let k = choose|k: int| 0 <= k < primes_upto(n).len() && primes_upto(n)[k] == x;
                    if k < prev.len() {
                        assert(prev[k] == x);
                    }
                }
            }
        } else {
            assert forall|x: int| #[trigger] primes_upto(n).contains(x) <==> (prime(x) && x <= n) by {
                if prime(x) && x <= n {
                    assert(x != n);
                    assert(prev.contains(x));
                }
            }
        }
    } else {
        assert forall|x: int| #[trigger] primes_upto(n).contains(x) <==> (prime(x) && x <= n) by {
            if prime(x) && x <= n {
                assert(false);
            }
        }
    }
}

/// For `a <= b`, the primes up to `a` begin the primes up to `b`.
pub proof fn lemma_primes_upto_prefix(a: int, b: int)
    requires
        a <= b,
    ensures
        primes_upto(a).len() <= primes_upto(b).len(),
        primes_upto(a) == primes_upto(b).subrange(0, primes_upto(a).len() as int),
    decreases b - a,
{
    if a < b {
        lemma_primes_upto_prefix(a, b - 1);
        if b >= 2 && prime(b) {
            assert(primes_upto(a) =~= primes_upto(b).subrange(0, primes_upto(a).len() as int));
        }
    } else {
        assert(primes_upto(a) =~= primes_upto(b).subrange(0, primes_upto(a).len() as int));
    }
}

/// The entry at position `k` of `primes_upto(n)` is the `(k + 1)`-th prime:
/// exactly `k + 1` primes lie in `[0, primes_upto(n)[k]]`.
pub proof fn lemma_primes_upto_rank(n: int, k: int)
    requires
        0 <= k < primes_upto(n).len(),
    ensures
        primes_upto(primes_upto(n)[k]).len() == k + 1,
    decreases n,
{
    let prev = primes_upto(n - 1);
    if n >= 2 && prime(n) && k == prev.len() {
        assert(primes_upto(n)[k] == n);
    } else {
        assert(primes_upto(n)[k] == prev[k]);
        lemma_primes_upto_rank(n - 1, k);
    }
}


/// Decides primality by trial division: after 2 and 3, only the candidates `6k - 1` and
/// `6k + 1` up to the square root are tried.
pub fn is_prime_by_trial(number: usize) -> (r: bool)
    ensures
        r == prime(number as int),
{
    let ghost n = number as int;
    if number < 2 {
        return false;
    }
    if number == 2 || number == 3 {
        return true;
    }
    if number % 2 == 0 || number % 3 == 0 {
        return false;
    }
    let mut index: usize = 5;
    proof {
        assert forall|d: int| 2 <= d < 5 && d * d <= n implies #[trigger] (n % d) != 0 by {
            if d == 4 && n % d == 0 {
                lemma_divides_transitive(n, 4, 2);
            }
        }
    }
    while index <= number / index
        invariant
            5 <= index,
            index % 6 == 5,
            n == number,
            n >= 5,
            n % 2 != 0,
            n % 3 != 0,
            no_factor_below(n, index as int),
        decreases number - index,
    {
        let ghost i = index as int;
        proof {
            assert(i * i <= n && i + 2 < n && i <= n / 5) by (nonlinear_arith)
                requires i <= n / i, i >= 5;
        }
        if number % index == 0 || number % (index + 2) == 0 {
            return false;
        }
        proof {
            assert forall|d: int| 2 <= d < i + 6 && d * d <= n implies #[trigger] (n % d) != 0 by {
                if d >= i && d != i && d != i + 2 && n % d == 0 {
                    if d == i + 4 {
                        lemma_divides_transitive(n, d, 3);
                    } else {
                        lemma_divides_transitive(n, d, 2);
                    }
                }
            }
        }
        index = index + 6;
    }
    proof {
        let i = index as int;
        assert(i * i > n) by (nonlinear_arith)
            requires i > n / i, i >= 5;
        lemma_prime_iff_no_small_factor(n);
        assert forall|d: int| 2 <= d < n + 1 && d * d <= n implies #[trigger] (n % d) != 0 by {
            assert(d < i) by (nonlinear_arith)
                requires d * d <= n, i * i > n, d >= 2, i >= 5;
        }
    }
    true
}

} // verus!

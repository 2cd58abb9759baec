//! The sum of the first squares, and the square of the sum of the first integers.
use vstd::prelude::*;
use crate::model::triangular;

verus! {

/// `1^2 + 2^2 + ... + n^2`.
pub open spec fn sum_of_first_squares(n: nat) -> nat
    decreases n,
{
    if n == 0 {
        0
    } else {
        sum_of_first_squares((n - 1) as nat) + n * n
    }
}

/// The sum of the squares of `1..=until`, which must fit in a machine word.
pub fn sum_of_squares(until: usize) -> (r: usize)
    requires
        sum_of_first_squares(until as nat) <= usize::MAX,
    ensures
        r == sum_of_first_squares(until as nat),
{
    let mut sum: usize = 0;
    let mut number: usize = 0;
    while number < until
        invariant
            number <= until,
            sum_of_first_squares(until as nat) <= usize::MAX,
            sum == sum_of_first_squares(number as nat),
        decreases until - number,
    {
        proof {
            lemma_sum_of_first_squares_grows((number + 1) as nat, until as nat);
        }
        number = number + 1;
        sum = sum + number * number;
    }
    sum
}

/// The sums of the first squares grow with the count.
proof fn lemma_sum_of_first_squares_grows(m: nat, n: nat)
    requires
        m <= n,
    ensures
        sum_of_first_squares(m) <= sum_of_first_squares(n),
    decreases n,
{
    if m < n {
        lemma_sum_of_first_squares_grows(m, (n - 1) as nat);
    }
}

/// The next triangular number adds the next integer.
pub proof fn lemma_triangular_step(n: nat)
    ensures
        triangular(n + 1) == triangular(n) + n + 1,
{
    let a = n * (n + 1);
    let b = (n + 1) * (n + 2);
    assert(b == a + 2 * (n + 1)) by (nonlinear_arith)
        requires a == n * (n + 1), b == (n + 1) * (n + 2);
    assert((a + 2 * (n + 1)) / 2 == a / 2 + (n + 1)) by {
        vstd::arithmetic::div_mod::lemma_fundamental_div_mod(a as int, 2);
        vstd::arithmetic::div_mod::lemma_fundamental_div_mod((a + 2 * (n + 1)) as int, 2);
        vstd::arithmetic::div_mod::lemma_mod_multiples_vanish((n + 1) as int, a as int, 2);
    }
}

/// The triangular numbers grow with the index.
pub proof fn lemma_triangular_grows(m: nat, n: nat)
    requires
        m <= n,
    ensures
        triangular(m) <= triangular(n),
    decreases n,
{
    if m < n {
        lemma_triangular_grows(m, (n - 1) as nat);
        lemma_triangular_step((n - 1) as nat);
    }
}

/// The square of `1 + 2 + ... + until`, which must fit in a machine word.
pub fn square_of_sum_of_numbers(until: usize) -> (r: usize)
    requires
        triangular(until as nat) * triangular(until as nat) <= usize::MAX,
    ensures
        r == triangular(until as nat) * triangular(until as nat),
{
    let mut sum: usize = 0;
    let mut number: usize = 0;
    proof {
        lemma_triangular_grows(until as nat, until as nat);
        let t = triangular(until as nat);
        assert(t <= t * t || t == 0) by (nonlinear_arith);
    }
    while number < until
        invariant
            number <= until,
            triangular(until as nat) <= usize::MAX,
            sum == triangular(number as nat),
        decreases until - number,
    {
        proof {
            lemma_triangular_step(number as nat);
            lemma_triangular_grows((number + 1) as nat, until as nat);
        }
        number = number + 1;
        sum = sum + number;
    }
    sum * sum
}

} // verus!

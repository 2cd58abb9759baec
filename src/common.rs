//! Common helpers on arrays and numbers: cleaning, merging, factors, sums and powers.
use vstd::prelude::*;
use crate::array_manipulations::array_clean;
use crate::divisors::{lemma_has_prime_divisor, lemma_proper_divisor_at_most_half};
use crate::model::{lemma_power_grows_with_exponent, lemma_sum_of_prefix, lemma_sum_with_parity_prefix, power, sum_of, sum_with_parity};
use crate::primality::prime;

verus! {

/// Sorts the array ascending and removes repeated numbers. The array must not be empty.
pub fn clean_array(array: &Vec<usize>) -> (r: Vec<usize>)
    requires
        array.len() > 0,
    ensures
        forall|i: int, j: int| 0 <= i < j < r.len() ==> #[trigger] r@[i] < #[trigger] r@[j],
        forall|x: usize| #[trigger] r@.contains(x) <==> array@.contains(x),
{
    array_clean(array)
}

/// The entries of `array1` followed by those of `array2`; neither array changes.
pub fn merge_2_arrays(array1: &mut [usize], array2: &mut [usize]) -> (r: Vec<usize>)
    ensures
        r@ == old(array1)@ + old(array2)@,
        final(array1)@ == old(array1)@,
        final(array2)@ == old(array2)@,
{
    let mut storage: Vec<usize> = Vec::new();
    let mut i: usize = 0;
    while i < array1.len()
        invariant
            i <= array1@.len(),
            storage@ == array1@.subrange(0, i as int),
        decreases array1@.len() - i,
    {
        storage.push(array1[i]);
        i = i + 1;
        assert(storage@ =~= array1@.subrange(0, i as int));
    }
    let mut j: usize = 0;
    while j < array2.len()
        invariant
            j <= array2@.len(),
            storage@ == array1@ + array2@.subrange(0, j as int),
        decreases array2@.len() - j,
    {
        storage.push(array2[j]);
        j = j + 1;
        assert(storage@ =~= array1@ + array2@.subrange(0, j as int));
    }
    assert(array1@.subrange(0, array1@.len() as int) =~= array1@);
    assert(array2@.subrange(0, array2@.len() as int) =~= array2@);
    storage
}

/// The factors of `number` in ascending order, 1 and `number` included. (For 0 the result
/// is `[1, 0]`.)
pub fn factors(number: &usize) -> (r: Vec<usize>)
    ensures
        *number == 0 ==> r@ == seq![1usize, 0usize],
        *number >= 1 ==> forall|i: int, j: int| 0 <= i < j < r.len() ==> #[trigger] r@[i] < #[trigger] r@[j],
        *number >= 1 ==> forall|x: usize| #[trigger] r@.contains(x) <==> (1 <= x <= *number && *number % x == 0),
{
    divisors_of(*number)
}

/// The divisors of `n` in ascending order, found by trial up to `n / 2`.
pub(crate) fn divisors_of(n: usize) -> (r: Vec<usize>)
    ensures
        n == 0 ==> r@ == seq![1usize, 0usize],
        n >= 1 ==> forall|i: int, j: int| 0 <= i < j < r.len() ==> #[trigger] r@[i] < #[trigger] r@[j],
        n >= 1 ==> forall|x: usize| #[trigger] r@.contains(x) <==> (1 <= x <= n && n % x == 0),
{
    if n == 1 {
        let r = vec![1usize];
        assert forall|x: usize| #[trigger] r@.contains(x) <==> (1 <= x <= n && n % x == 0) by {
            if x == 1 {
                assert(r@[0] == 1);
            }
        }
        return r;
    }
    let mut storage: Vec<usize> = Vec::new();
    storage.push(1);
    let mut divisor: usize = 2;
    let end: usize = n / 2 + 1;
    proof {
        assert forall|x: usize| #[trigger] storage@.contains(x) <==> (x == 1 || (2 <= x < divisor && n % x == 0)) by {
            if x == 1 {
                assert(storage@[0] == 1);
            }
        }
    }
    while divisor < end
        invariant
            2 <= divisor,
            divisor <= end || end < 2,
            end == n / 2 + 1,
            storage.len() >= 1,
            n == 0 ==> storage.len() == 1,
            storage@[0] == 1,
            forall|i: int, j: int| 0 <= i < j < storage.len() ==> #[trigger] storage@[i] < #[trigger] storage@[j],
            forall|i: int| 0 <= i < storage.len() ==> #[trigger] storage@[i] < divisor,
            forall|x: usize| #[trigger] storage@.contains(x) <==> (x == 1 || (2 <= x < divisor && n % x == 0)),
        decreases end - divisor,
    {
        if n % divisor == 0 {
            let ghost before = storage@;
            storage.push(divisor);
            proof {
                assert forall|x: usize| #[trigger] storage@.contains(x) <==> (x == 1 || (2 <= x < divisor + 1 && n % x == 0)) by {
                    if before.contains(x) {
                        let k = choose|k: int| 0 <= k < before.len() && before[k] == x;
                        assert(storage@[k] == x);
                    }
                    if x == divisor {
                        assert(storage@[before.len() as int] == x);
                    }
                    if storage@.contains(x) && x != divisor {
                        let k = choose|k: int| 0 <= k < storage@.len() && storage@[k] == x;
                        assert(before[k] == x);
                    }
                }
            }
        }
        divisor = divisor + 1;
    }
    let ghost before = storage@;
    storage.push(n);
    proof {
        assert forall|x: usize| n >= 1 implies #[trigger] storage@.contains(x) <==> (1 <= x <= n && n % x == 0) by {
            if before.contains(x) {
                let k = choose|k: int| 0 <= k < before.len() && before[k] == x;
                assert(storage@[k] == x);
            }
            if x == n {
                assert(storage@[before.len() as int] == x);
                if n > 0 {
                    vstd::arithmetic::div_mod::lemma_mod_self_0(n as int);
                }
            }
            if storage@.contains(x) && x != n {
                let k = choose|k: int| 0 <= k < storage@.len() && storage@[k] == x;
                assert(before[k] == x);
            }
            if 1 <= x < n && n % x == 0 && x >= 2 {
                lemma_proper_divisor_at_most_half(n as int, x as int);
            }
        }
        if n == 0 {
            assert(storage@ =~= seq![1usize, 0usize]);
        }
    }
    storage
}

/// The prime factors of `number` in ascending order; `number` must be at least 2.
pub fn prime_factors(number: &usize) -> (r: Vec<usize>)
    requires
        *number >= 2,
    ensures
        r.len() >= 1,
        forall|i: int, j: int| 0 <= i < j < r.len() ==> #[trigger] r@[i] < #[trigger] r@[j],
        forall|x: usize| #[trigger] r@.contains(x) <==> (prime(x as int) && *number % x == 0),
{
    prime_divisors_of(*number)
}

/// The prime divisors of `n` in ascending order.
pub(crate) fn prime_divisors_of(n: usize) -> (r: Vec<usize>)
    requires
        n >= 2,
    ensures
        r.len() >= 1,
        forall|i: int, j: int| 0 <= i < j < r.len() ==> #[trigger] r@[i] < #[trigger] r@[j],
        forall|x: usize| #[trigger] r@.contains(x) <==> (prime(x as int) && n % x == 0),
{
    let all = divisors_of(n);
    let mut vector: Vec<usize> = Vec::new();
    let mut i: usize = 0;
    while i < all.len()
        invariant
            i <= all.len(),
            n >= 2,
            forall|a: int, b: int| 0 <= a < b < all.len() ==> #[trigger] all@[a] < #[trigger] all@[b],
            forall|a: int, b: int| 0 <= a < b < vector.len() ==> #[trigger] vector@[a] < #[trigger] vector@[b],
            forall|a: int| 0 <= a < vector.len() ==> exists|b: int| 0 <= b < i && #[trigger] vector@[a] == all@[b],
            forall|x: usize| #[trigger] vector@.contains(x) <==> (prime(x as int) && exists|b: int| 0 <= b < i && all@[b] == x),
        decreases all.len() - i,
    {
        let candidate = all[i];
        if crate::primality::is_prime_by_trial(candidate) {
            let ghost before = vector@;
            proof {
                assert forall|a: int| 0 <= a < before.len() implies #[trigger] before[a] < candidate by {
                    let b = choose|b: int| 0 <= b < i && #[trigger] before[a] == all@[b];
                }
            }
            vector.push(candidate);
            proof {
                assert forall|x: usize| #[trigger] vector@.contains(x) <==> (prime(x as int) && exists|b: int| 0 <= b < i + 1 && all@[b] == x) by {
                    if before.contains(x) {
                        let k = choose|k: int| 0 <= k < before.len() && before[k] == x;
                        assert(vector@[k] == x);
                    }
                    if x == candidate {
                        assert(vector@[before.len() as int] == x);
                    }
                    if vector@.contains(x) && x != candidate {
                        let k = choose|k: int| 0 <= k < vector@.len() && vector@[k] == x;
                        assert(before[k] == x);
                    }
                    if prime(x as int) && exists|b: int| 0 <= b < i + 1 && all@[b] == x {
                        let b = choose|b: int| 0 <= b < i + 1 && all@[b] == x;
                        if b < i {
                            assert(before.contains(x));
                        }
                    }
                }
                assert forall|a: int| 0 <= a < vector.len() implies exists|b: int| 0 <= b < i + 1 && #[trigger] vector@[a] == all@[b] by {
                    if a < before.len() {
                        let b = choose|b: int| 0 <= b < i && #[trigger] before[a] == all@[b];
                        assert(vector@[a] == all@[b]);
                    } else {
                        assert(vector@[a] == all@[i as int]);
                    }
                }
            }
        } else {
            proof {
                assert forall|x: usize| #[trigger] vector@.contains(x) <==> (prime(x as int) && exists|b: int| 0 <= b < i + 1 && all@[b] == x) by {
                    if prime(x as int) && exists|b: int| 0 <= b < i + 1 && all@[b] == x {
                        let b = choose|b: int| 0 <= b < i + 1 && all@[b] == x;
                        assert(b != i);
                    }
                }
            }
        }
        i = i + 1;
    }
    proof {
        assert forall|x: usize| #[trigger] vector@.contains(x) <==> (prime(x as int) && n % x == 0) by {
            if prime(x as int) && n % x == 0 {
                if x > n {
                    vstd::arithmetic::div_mod::lemma_small_mod(n as nat, x as nat);
                }
                assert(all@.contains(x));
                let b = choose|b: int| 0 <= b < all.len() && all@[b] == x;
            }
            if vector@.contains(x) {
                let b = choose|b: int| 0 <= b < all.len() && all@[b] == x;
                assert(all@.contains(x));
            }
        }
        let p = lemma_has_prime_divisor(n as int);
        assert(vector@.contains(p as usize));
    }
    vector
}

/// The sum of the numbers in `array`, which must fit in a machine word.
pub fn sum(array: &[usize]) -> (r: usize)
    requires
        sum_of(array@) <= usize::MAX,
    ensures
        r == sum_of(array@),
{
    let mut total: usize = 0;
    let mut i: usize = 0;
    while i < array.len()
        invariant
            i <= array@.len(),
            sum_of(array@) <= usize::MAX,
            total == sum_of(array@.subrange(0, i as int)),
        decreases array@.len() - i,
    {
        proof {
            assert(array@.subrange(0, i + 1).drop_last() =~= array@.subrange(0, i as int));
            lemma_sum_of_prefix(array@, i + 1);
        }
        total = total + array[i];
        i = i + 1;
    }
    assert(array@.subrange(0, i as int) =~= array@);
    total
}

/// The sum of the numbers in `array` whose remainder by 2 is `parity`.
pub(crate) fn sum_by_parity(array: &[usize], parity: usize) -> (r: usize)
    requires
        parity < 2,
        sum_with_parity(array@, parity as nat) <= usize::MAX,
    ensures
        r == sum_with_parity(array@, parity as nat),
{
    let mut total: usize = 0;
    let mut i: usize = 0;
    while i < array.len()
        invariant
            i <= array@.len(),
            parity < 2,
            sum_with_parity(array@, parity as nat) <= usize::MAX,
            total == sum_with_parity(array@.subrange(0, i as int), parity as nat),
        decreases array@.len() - i,
    {
        proof {
            assert(array@.subrange(0, i + 1).drop_last() =~= array@.subrange(0, i as int));
            lemma_sum_with_parity_prefix(array@, parity as nat, i + 1);
        }
        if array[i] % 2 == parity {
            total = total + array[i];
        }
        i = i + 1;
    }
    assert(array@.subrange(0, i as int) =~= array@);
    total
}

/// The sum of the even numbers in `array`.
pub fn sum_even(array: &[usize]) -> (r: usize)
    requires
        sum_with_parity(array@, 0) <= usize::MAX,
    ensures
        r == sum_with_parity(array@, 0),
{
    sum_by_parity(array, 0)
}

/// The sum of the odd numbers in `array`.
pub fn sum_odd(array: &[usize]) -> (r: usize)
    requires
        sum_with_parity(array@, 1) <= usize::MAX,
    ensures
        r == sum_with_parity(array@, 1),
{
    sum_by_parity(array, 1)
}

/// `number` raised to `power`. The base 0 is refused; the result must fit in a machine word.
pub fn to_power(number: &usize, power: &usize) -> (r: usize)
    requires
        *number >= 1,
        crate::model::power(*number as nat, *power as nat) <= usize::MAX,
    ensures
        r == crate::model::power(*number as nat, *power as nat),
{
    power_of(*number, *power)
}

/// `b` raised to `e`, by repeated multiplication.
pub(crate) fn power_of(b: usize, e: usize) -> (r: usize)
    requires
        b >= 1,
        power(b as nat, e as nat) <= usize::MAX,
    ensures
        r == power(b as nat, e as nat),
{
    let mut result: usize = 1;
    let mut k: usize = 0;
    while k < e
        invariant
            k <= e,
            b >= 1,
            power(b as nat, e as nat) <= usize::MAX,
            result == power(b as nat, k as nat),
        decreases e - k,
    {
        proof {
            lemma_power_grows_with_exponent(b as nat, (k + 1) as nat, e as nat);
            assert(power(b as nat, (k + 1) as nat) == b * power(b as nat, k as nat));
        }
        result = result * b;
        k = k + 1;
    }
    result
}

} // verus!

//! Array cleanup, merging, factors with optional ends, prime factors, sums and powers.
use vstd::prelude::*;
use crate::array_manipulations::array_clean;
use crate::common::{divisors_of, power_of, prime_divisors_of, sum_by_parity};
use crate::model::{divisors_in, power, sum_of, sum_with_parity};
use crate::primality::{as_ints, prime};

verus! {

/// The distinct values of `array`, ascending; the array itself is left as it was. The array
/// must not be empty.
pub fn clean_array(array: &mut Vec<usize>) -> (r: Vec<usize>)
    requires
        old(array).len() > 0,
    ensures
        final(array)@ == old(array)@,
        forall|i: int, j: int| 0 <= i < j < r.len() ==> #[trigger] r@[i] < #[trigger] r@[j],
        forall|x: usize| #[trigger] r@.contains(x) <==> old(array)@.contains(x),
{
    array_clean(array)
}

/// The entries of `array1` followed by those of `array2`; neither array changes.
pub fn merge_2_arrays(array1: &mut [usize], array2: &mut [usize]) -> (r: Vec<usize>)
    ensures
        r@ == old(array1)@ + old(array2)@,
        final(array1)@ == old(array1)@,
        final(array2)@ == old(array2)@,
{
    crate::common::merge_2_arrays(array1, array2)
}

/// The divisors of `number` in `[2, number / 2]`, ascending, preceded by 1 if `include_one`
/// and followed by `number` itself if `include_self`.
pub fn factors(number: usize, include_one: bool, include_self: bool) -> (r: Vec<usize>)
    ensures
        as_ints(r@) == (if include_one { seq![1int] } else { seq![] }) + divisors_in(number as int, 2, number / 2 + 1) + (
        if include_self {
            seq![number as int]
        } else {
            seq![]
        }),
{
    let mut storage: Vec<usize> = Vec::new();
    if include_one {
        storage.push(1);
    }
    let ghost head: Seq<int> = if include_one { seq![1int] } else { seq![] };
    assert(as_ints(storage@) =~= head + divisors_in(number as int, 2, 2));
    let end: usize = number / 2 + 1;
    let mut divisor: usize = 2;
    while divisor < end
        invariant
            2 <= divisor,
            divisor <= end || end < 2,
            end < 2 ==> divisor == 2,
            end == number / 2 + 1,
            as_ints(storage@) == head + divisors_in(number as int, 2, divisor as int),
        decreases end - divisor,
    {
        let ghost before = storage@;
        if number % divisor == 0 {
            storage.push(divisor);
            assert(as_ints(storage@) =~= as_ints(before).push(divisor as int));
        }
        assert(divisors_in(number as int, 2, divisor + 1) == if number as int % divisor as int == 0 {
            divisors_in(number as int, 2, divisor as int).push(divisor as int)
        } else {
            divisors_in(number as int, 2, divisor as int)
        });
        divisor = divisor + 1;
    }
    if end < 2 {
        assert(divisors_in(number as int, 2, end as int) =~= divisors_in(number as int, 2, 2));
    } else {
        assert(divisor == end);
        assert(as_ints(storage@) == head + divisors_in(number as int, 2, end as int));
    }
    assert(as_ints(storage@) == head + divisors_in(number as int, 2, end as int));
    let ghost mid = storage@;
    assert(as_ints(mid) == head + divisors_in(number as int, 2, number / 2 + 1));
    if include_self {
        storage.push(number);
        assert(as_ints(storage@) =~= as_ints(mid).push(number as int));
    }
    assert(as_ints(storage@) =~= head + divisors_in(number as int, 2, number / 2 + 1) + (if include_self {
        seq![number as int]
    } else {
        seq![]
    }));
    storage
}

/// The prime factors of `number` in ascending order; `number` must be at least 2.
pub fn prime_factors(number: usize) -> (r: Vec<usize>)
    requires
        number >= 2,
    ensures
        r.len() >= 1,
        forall|i: int, j: int| 0 <= i < j < r.len() ==> #[trigger] r@[i] < #[trigger] r@[j],
        forall|x: usize| #[trigger] r@.contains(x) <==> (prime(x as int) && number % x == 0),
{
    prime_divisors_of(number)
}

/// The sum of the numbers in `array`, which must fit in a machine word.
pub fn sum_of_array_items(array: Vec<usize>) -> (r: usize)
    requires
        sum_of(array@) <= usize::MAX,
    ensures
        r == sum_of(array@),
{
    crate::common::sum(array.as_slice())
}

/// The sum of the even numbers in `array`, which is left as it was.
pub fn sum_of_even_array_items(array: &mut [usize]) -> (r: usize)
    requires
        sum_with_parity(old(array)@, 0) <= usize::MAX,
    ensures
        final(array)@ == old(array)@,
        r == sum_with_parity(old(array)@, 0),
{
    sum_by_parity(array, 0)
}

/// `number` raised to `power`; the base must be at least 2 and the result must fit in a
/// machine word.
pub fn to_power(number: usize, power: usize) -> (r: usize)
    requires
        number >= 2,
        crate::model::power(number as nat, power as nat) <= usize::MAX,
    ensures
        r == crate::model::power(number as nat, power as nat),
{
    power_of(number, power)
}

} // verus!

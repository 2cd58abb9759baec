//! The smallest number that every integer of a range divides.
use vstd::prelude::*;

verus! {

/// Every integer in `[2, until]` divides `x`.
pub open spec fn divisible_by_all_up_to(x: int, until: int) -> bool {
    forall|k: int| 2 <= k <= until ==> #[trigger] (x % k) == 0
}

/// Whether every integer in `[2, until]` divides `number`.
fn divisible_by_all(number: usize, until: usize) -> (r: bool)
    ensures
        r == divisible_by_all_up_to(number as int, until as int),
{
    if until < 2 {
        return true;
    }
    let mut k: usize = 2;
    while k <= until
        invariant
            2 <= k,
            k <= until + 1,
            forall|j: int| 2 <= j < k ==> #[trigger] (number as int % j) == 0,
        decreases until + 1 - k,
    {
        if number % k != 0 {
            return false;
        }
        if k == until {
            return true;
        }
        k = k + 1;
    }
    true
}

/// The smallest number in `[2, cap]` that every integer in `[2, until]` divides; 0 where
/// there is none, and for `until == 0`.
pub fn smallest_multiple(until: usize, cap: usize) -> (r: usize)
    ensures
        r == 0 ==> until == 0 || forall|x: int| 2 <= x <= cap ==> !#[trigger] divisible_by_all_up_to(x, until as int),
        r != 0 ==> until >= 1 && 2 <= r <= cap && divisible_by_all_up_to(r as int, until as int)
            && forall|x: int| 2 <= x < r ==> !#[trigger] divisible_by_all_up_to(x, until as int),
{
    if until == 0 || cap < 2 {
        return 0;
    }
    let mut number: usize = 2;
    loop
        invariant
            until >= 1,
            2 <= number <= cap,
            forall|x: int| 2 <= x < number ==> !#[trigger] divisible_by_all_up_to(x, until as int),
        decreases cap - number,
    {
        if divisible_by_all(number, until) {
            return number;
        }
        if number == cap {
            return 0;
        }
        number = number + 1;
    }
}

} // verus!

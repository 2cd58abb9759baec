//! Palindromic numbers and palindromic products of two numbers of a given digit count.
use vstd::prelude::*;
use crate::palindrome::{decimal_digits, is_palindrome, is_palindromic};

verus! {

/// `x` is the product of two numbers in `[lo, hi]`.
pub open spec fn is_product_within(x: int, lo: int, hi: int) -> bool {
    exists|a: int, b: int| lo <= a <= hi && lo <= b <= hi && #[trigger] (a * b) == x
}

/// The palindromic numbers in `[start, end)` that are products of two numbers in
/// `[lo, hi]`, ascending.
pub open spec fn palindromic_products(start: int, end: int, lo: int, hi: int) -> Seq<int>
    decreases end - start,
{
    if end <= start {
        seq![]
    } else if end - 1 >= 0 && is_palindromic(decimal_digits((end - 1) as nat)) && is_product_within(end - 1, lo, hi) {
        palindromic_products(start, end - 1, lo, hi).push(end - 1)
    } else {
        palindromic_products(start, end - 1, lo, hi)
    }
}

/// Whether the decimal digits of `number` read the same forwards and backwards.
pub fn is_palindrome_number(number: usize) -> (r: bool)
    ensures
        r == is_palindromic(decimal_digits(number as nat)),
{
    is_palindrome(number)
}

/// Whether `x` is the product of two numbers in `[lo, hi]`, found by trying each divisor.
fn has_factor_pair(x: usize, lo: usize, hi: usize) -> (r: bool)
    requires
        1 <= lo <= hi,
    ensures
        r == is_product_within(x as int, lo as int, hi as int),
{
    let mut a: usize = lo;
    while a <= hi
        invariant
            1 <= lo <= a,
            a <= hi + 1,
            hi < usize::MAX || a <= hi,
            forall|c: int, b: int| lo <= c < a && lo <= b <= hi ==> #[trigger] (c * b) != x,
        decreases hi + 1 - a,
    {
        if x % a == 0 && lo <= x / a && x / a <= hi {
            proof {
                let b = x / a;
                vstd::arithmetic::div_mod::lemma_fundamental_div_mod(x as int, a as int);
                assert(a * b == x);
            }
            return true;
        }
        proof {
            assert forall|c: int, b: int| lo <= c < a + 1 && lo <= b <= hi implies #[trigger] (c * b) != x by {
                if c == a && c * b == x {
                    vstd::arithmetic::div_mod::lemma_div_by_multiple(b, c);
                    vstd::arithmetic::div_mod::lemma_mod_multiples_basic(b, c);
                    assert(b * c == c * b) by (nonlinear_arith);
                }
            }
        }
        if a == hi {
            return false;
        }
        a = a + 1;
    }
    false
}

/// The palindromic numbers in `[start, end)` that are products of two numbers in `[lo, hi]`.
fn collect_palindromic_products(start: usize, end: usize, lo: usize, hi: usize) -> (r: Vec<usize>)
    requires
        1 <= lo <= hi,
        start <= end,
    ensures
        crate::primality::as_ints(r@) == palindromic_products(start as int, end as int, lo as int, hi as int),
{
    let mut storage: Vec<usize> = Vec::new();
    let mut number: usize = start;
    assert(crate::primality::as_ints(storage@) =~= palindromic_products(start as int, start as int, lo as int, hi as int));
    while number < end
        invariant
            1 <= lo <= hi,
            start <= number <= end,
            crate::primality::as_ints(storage@) == palindromic_products(start as int, number as int, lo as int, hi as int),
        decreases end - number,
    {
        let ghost before = storage@;
        if is_palindrome(number) && has_factor_pair(number, lo, hi) {
            storage.push(number);
            assert(crate::primality::as_ints(storage@) =~= crate::primality::as_ints(before).push(number as int));
        }
        number = number + 1;
    }
    storage
}

/// The palindromic products of two 2-digit numbers (for `digit == 2`) or of two 3-digit
/// numbers (for `digit == 3`), ascending, from the square of the smallest such number up to
/// (not including) the square of `99` or `999`; `[0]` for any other `digit`.
pub fn palindromes(digit: usize) -> (r: Vec<usize>)
    ensures
        digit == 2 ==> crate::primality::as_ints(r@) == palindromic_products(100, 9801, 10, 99),
        digit == 3 ==> crate::primality::as_ints(r@) == palindromic_products(10000, 998001, 100, 999),
        digit != 2 && digit != 3 ==> r@ == seq![0usize],
{
    if digit == 2 {
        collect_palindromic_products(100, 9801, 10, 99)
    } else if digit == 3 {
        collect_palindromic_products(10000, 998001, 100, 999)
    } else {
        vec![0]
    }
}

} // verus!

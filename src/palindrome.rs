//! Numbers whose decimal digits read the same in both directions.
use vstd::prelude::*;

verus! {

/// The decimal digits of `n`, least significant first (`[0]` for 0).
pub open spec fn decimal_digits(n: nat) -> Seq<nat>
    decreases n,
{
    if n < 10 {
        seq![n]
    } else {
        seq![n % 10] + decimal_digits(n / 10)
    }
}

/// `s` reads the same forwards and backwards.
pub open spec fn is_palindromic(s: Seq<nat>) -> bool {
    forall|i: int| 0 <= i < s.len() ==> #[trigger] s[i] == s[s.len() - 1 - i]
}

/// Whether the decimal digits of `number` read the same forwards and backwards.
pub fn is_palindrome(number: usize) -> (r: bool)
    ensures
        r == is_palindromic(decimal_digits(number as nat)),
{
    let ghost all = decimal_digits(number as nat);
    let mut digits: Vec<usize> = Vec::new();
    let mut m: usize = number;
    while m >= 10
        invariant
            all == decimal_digits(number as nat),
            digits.len() + decimal_digits(m as nat).len() == all.len(),
            forall|i: int| 0 <= i < digits.len() ==> #[trigger] all[i] == digits@[i] as nat,
            forall|j: int| 0 <= j < decimal_digits(m as nat).len() ==> #[trigger] decimal_digits(m as nat)[j] == all[digits.len() + j],
        decreases m,
    {
        let ghost rest = decimal_digits(m as nat);
        assert(rest == seq![(m % 10) as nat] + decimal_digits((m / 10) as nat));
        assert(all[digits.len() as int] == rest[0]);
        digits.push(m % 10);
        m = m / 10;
        assert forall|j: int| 0 <= j < decimal_digits(m as nat).len() implies #[trigger] decimal_digits(m as nat)[j] == all[digits.len() + j] by {
            assert(decimal_digits(m as nat)[j] == rest[j + 1]);
        }
    }
    assert(decimal_digits(m as nat)[0] == m as nat);
    digits.push(m);
    let len = digits.len();
    assert(len == all.len());
    let mut i: usize = 0;
    while i < len / 2
        invariant
            all == decimal_digits(number as nat),
            len == digits.len() == all.len(),
            forall|k: int| 0 <= k < len ==> #[trigger] all[k] == digits@[k] as nat,
            forall|k: int| 0 <= k < i ==> #[trigger] all[k] == all[len - 1 - k],
            i <= len / 2,
        decreases len / 2 - i,
    {
        if digits[i] != digits[len - 1 - i] {
            assert(all[i as int] != all[all.len() - 1 - i as int]);
            assert(!is_palindromic(all));
            return false;
        }
        i = i + 1;
    }
    assert forall|k: int| 0 <= k < all.len() implies #[trigger] all[k] == all[all.len() - 1 - k] by {
        if k >= len / 2 {
            let j = len - 1 - k;
            if j < i {
                assert(all[j] == all[len - 1 - j]);
            }
        }
    }
    true
}

} // verus!

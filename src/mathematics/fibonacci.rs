//! A Fibonacci series without the repeated leading 1.
use vstd::prelude::*;
use crate::model::{fib, lemma_fib_positive};

verus! {

/// The series `1, 2, 3, 5, 8, ...` (that is `fib(1), fib(2), ...`) up to the last term below
/// `until`. At most `until` terms are produced, and never fewer than two, so for a small
/// `until` the list may end on a term that is not below it. Needs `1 <= until <= usize::MAX / 2`.
pub fn fibonacci_series(until: usize) -> (r: Vec<usize>)
    requires
        1 <= until <= usize::MAX / 2,
    ensures
        forall|i: int| 0 <= i < r.len() ==> #[trigger] r@[i] == fib((i + 1) as nat),
        (r.len() + 2 <= until && fib(r.len() as nat) < until <= fib((r.len() + 1) as nat))
            || (r.len() == if until < 2 { 2 } else { until } && (until < 3 || fib((until - 1) as nat) < until)),
{
    let mut series: Vec<usize> = vec![1, 2];
    assert(fib(2) == fib(1) + fib(0));
    if until <= 2 {
        return series;
    }
    loop
        invariant
            3 <= until <= usize::MAX / 2,
            2 <= series.len() <= until,
            forall|i: int| 0 <= i < series.len() ==> #[trigger] series@[i] == fib((i + 1) as nat),
            forall|i: int| 1 <= i < series.len() - 1 ==> #[trigger] series@[i] < until,
        decreases until - series.len(),
    {
        let k = series.len();
        let last = series[k - 1];
        if last >= until && k + 1 <= until {
            let ghost full = series@;
            series.pop();
            assert forall|i: int| 0 <= i < series.len() implies #[trigger] series@[i] == fib((i + 1) as nat) by {
                assert(series@[i] == full[i]);
            }
            if k >= 3 {
                assert(series@[k - 2] == full[k - 2]);
            }
            return series;
        }
        if k == until {
            proof {
                if k >= 3 {
                    assert(series@[k - 2] < until);
                }
            }
            return series;
        }
        let prev = series[k - 2];
        proof {
            assert(fib((k + 1) as nat) == fib(k as nat) + fib((k - 1) as nat));
            if k >= 3 {
                assert(series@[k - 2] < until);
            }
        }
        series.push(last + prev);
    }
}

} // verus!

//! General integer helpers that report a timed, message-carrying outcome: parity, sums,
//! arithmetic sequences and multiples in a range.
use vstd::prelude::*;
use crate::clock::{clock_elapsed, clock_start};
use crate::model::sum_of;
use crate::{ERABool, ERAMath};

verus! {

/// The smallest multiple of `m` that is at least `start`.
pub open spec fn first_multiple_from(start: int, m: int) -> int {
    if start % m == 0 {
        start
    } else {
        start + m - start % m
    }
}

/// The carrier of the general helpers.
pub struct ERAGeneral;

impl ERAGeneral {
    /// Whether `number` is even.
    pub fn is_even(number: usize) -> (r: ERABool)
        ensures
            r.result == Ok::<bool, String>(number % 2 == 0),
    {
        let start_time = clock_start();
        let result = number % 2 == 0;
        let duration = clock_elapsed(&start_time);
        ERABool::new(Ok(result), duration)
    }

    /// Whether `number` is odd.
    pub fn is_odd(number: usize) -> (r: ERABool)
        ensures
            r.result == Ok::<bool, String>(number % 2 == 1),
    {
        let start_time = clock_start();
        let result = number % 2 == 1;
        let duration = clock_elapsed(&start_time);
        ERABool::new(Ok(result), duration)
    }

    /// The sum of the numbers in `array`, which must fit in a machine word.
    pub fn sum(array: Vec<usize>) -> (r: ERAMath<usize>)
        requires
            sum_of(array@) <= usize::MAX,
        ensures
            r.result == Ok::<usize, String>(sum_of(array@) as usize),
    {
        let start_time = clock_start();
        let total = crate::common::sum(array.as_slice());
        let duration = clock_elapsed(&start_time);
        ERAMath::new(Ok(total), duration)
    }

    /// The terms `start, start + ratio, start + 2 ratio, ...` below `end`; none for a ratio
    /// of 0; an error message where `start > end`.
    pub fn arithmetic_sequence(start: usize, end: usize, ratio: usize) -> (r: ERAMath<Vec<usize>>)
        ensures
            start > end ==> (r.result matches Err(m) && m@ == "Err: start cannot be greater than end."@),
            start <= end && ratio == 0 ==> (r.result matches Ok(v) && v.len() == 0),
            start <= end && ratio > 0 ==> (r.result matches Ok(v)
                && (forall|i: int| 0 <= i < v.len() ==> #[trigger] v@[i] == start + i * ratio && v@[i] < end)
                && start + v.len() * ratio >= end),
    {
        let start_time = clock_start();
        if start > end {
            let duration = clock_elapsed(&start_time);
            return ERAMath::new(Err("Err: start cannot be greater than end.".to_string()), duration);
        }
        let mut calculation: Vec<usize> = Vec::new();
        if ratio != 0 && start < end {
            let mut current: usize = start;
            assert(start + calculation.len() * ratio == start) by (nonlinear_arith)
                requires calculation.len() == 0;
            loop
                invariant_except_break
                    current == start + calculation.len() * ratio,
                    start <= current < end,
                invariant
                    ratio > 0,
                    forall|i: int| 0 <= i < calculation.len() ==> #[trigger] calculation@[i] == start + i * ratio && calculation@[i] < end,
                ensures
                    forall|i: int| 0 <= i < calculation.len() ==> #[trigger] calculation@[i] == start + i * ratio && calculation@[i] < end,
                    start + calculation.len() * ratio >= end,
                decreases end - current,
            {
                calculation.push(current);
                proof {
                    assert(start + calculation.len() * ratio == current + ratio) by (nonlinear_arith)
                        requires current == start + (calculation.len() - 1) * ratio, calculation.len() >= 1;
                }
                if end - current <= ratio {
                    break;
                }
                current = current + ratio;
            }
        }
        let duration = clock_elapsed(&start_time);
        ERAMath::new(Ok(calculation), duration)
    }

    /// The multiples of `multiplier` in `[start, end]`, ascending; an error message where
    /// `start > end`. A multiplier of 0 is refused.
    pub fn multiples_of(start: usize, end: usize, multiplier: usize) -> (r: ERAMath<Vec<usize>>)
        requires
            start <= end ==> multiplier >= 1,
        ensures
            start > end ==> (r.result matches Err(m) && m@ == "Err: start cannot be greater than end."@),
            start <= end ==> (r.result matches Ok(v)
                && (forall|i: int| 0 <= i < v.len() ==> #[trigger] v@[i] == first_multiple_from(start as int, multiplier as int) + i * multiplier
                    && v@[i] <= end)
                && first_multiple_from(start as int, multiplier as int) + v.len() * multiplier > end),
    {
        let start_time = clock_start();
        if start > end {
            let duration = clock_elapsed(&start_time);
            return ERAMath::new(Err("Err: start cannot be greater than end.".to_string()), duration);
        }
        let m = multiplier;
        let ghost first = first_multiple_from(start as int, m as int);
        let rem = start % m;
        let mut calculation: Vec<usize> = Vec::new();
        if rem == 0 || m - rem <= end - start {
            let mut current: usize = if rem == 0 { start } else { start + (m - rem) };
            assert(first + calculation.len() * m == first) by (nonlinear_arith)
                requires calculation.len() == 0;
            loop
                invariant_except_break
                    current <= end,
                    current == first + calculation.len() * m,
                invariant
                    m >= 1,
                    first == first_multiple_from(start as int, m as int),
                    forall|i: int| 0 <= i < calculation.len() ==> #[trigger] calculation@[i] == first + i * m && calculation@[i] <= end,
                ensures
                    forall|i: int| 0 <= i < calculation.len() ==> #[trigger] calculation@[i] == first + i * m && calculation@[i] <= end,
                    first + calculation.len() * m > end,
                decreases end - current,
            {
                calculation.push(current);
                proof {
                    assert(first + calculation.len() * m == current + m) by (nonlinear_arith)
                        requires current == first + (calculation.len() - 1) * m, calculation.len() >= 1;
                }
                if end - current < m {
                    break;
                }
                current = current + m;
            }
        }
        let duration = clock_elapsed(&start_time);
        ERAMath::new(Ok(calculation), duration)
    }
}

} // verus!

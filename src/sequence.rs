//! The Fibonacci sequence as a timed, message-carrying outcome.
use vstd::prelude::*;
use crate::clock::{clock_elapsed, clock_start};
use crate::model::fib;
use crate::sequences::fibonacci_below;
use crate::ERAMath;

verus! {

/// Timed integer sequences.
pub trait ERASequenceTrait {
    /// The Fibonacci numbers `1, 1, 2, 3, ...` below `until`; for `until` 2 or 3 the list runs
    /// one term further, up to `until` itself; an error message below 2.
    fn fibonacci(until: usize) -> (r: ERAMath<Vec<usize>>)
        ensures
            until < 2 ==> (r.result matches Err(m) && m@ == "Err: the input parameter must be greater than 2."@),
            until == 2 ==> (r.result matches Ok(v) && v@ == seq![1usize, 1, 2]),
            until == 3 ==> (r.result matches Ok(v) && v@ == seq![1usize, 1, 2, 3]),
            until > 3 ==> (r.result matches Ok(v) && v.len() >= 2
                && (forall|i: int| 0 <= i < v.len() ==> #[trigger] v@[i] == fib(i as nat) && v@[i] < until)
                && fib(v.len() as nat) >= until),
    ;
}

/// The timed integer sequences.
pub struct ERASequence;

impl ERASequenceTrait for ERASequence {
    fn fibonacci(until: usize) -> (r: ERAMath<Vec<usize>>) {
        let start_time = clock_start();
        let result = if until < 2 {
            Err("Err: the input parameter must be greater than 2.".to_string())
        } else if until == 2 {
            Ok(vec![1, 1, 2])
        } else if until == 3 {
            Ok(vec![1, 1, 2, 3])
        } else {
            Ok(fibonacci_below(until))
        };
        let duration = clock_elapsed(&start_time);
        ERAMath::new(result, duration)
    }
}

} // verus!

//! Recognising triangular numbers.
use vstd::prelude::*;
use crate::mathematics::square_operations::{lemma_triangular_grows, lemma_triangular_step};
use crate::model::triangular;

verus! {

/// Whether `number` is `1 + 2 + ... + k` for some `k >= 1`.
pub fn is_triangular(number: usize) -> (r: bool)
    ensures
        r == exists|k: nat| k >= 1 && #[trigger] triangular(k) == number,
{
    if number == 0 {
        assert forall|k: nat| k >= 1 implies #[trigger] triangular(k) != number by {
            lemma_triangular_grows(1, k);
        }
        return false;
    }
    let mut count: usize = 0;
    let mut index: usize = 0;
    loop
        invariant
            number >= 1,
            count == triangular(index as nat),
            count < number,
            index <= number,
            forall|k: nat| 1 <= k <= index ==> #[trigger] triangular(k) != number,
        decreases number - index,
    {
        proof {
            lemma_triangular_step(index as nat);
        }
        if index >= number - count {
            proof {
                assert forall|k: nat| k >= 1 implies #[trigger] triangular(k) != number by {
                    if k > index {
                        lemma_triangular_grows((index + 1) as nat, k);
                    }
                }
            }
            return false;
        }
        index = index + 1;
        count = count + index;
        if count == number {
            return true;
        }
    }
}

} // verus!

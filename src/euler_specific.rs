//! Solutions to two number puzzles: the smallest common multiple of a range, and the
//! Pythagorean triplet whose sides add up to 1000.
use vstd::prelude::*;

pub mod p5_smallest_multiple;
pub mod p9_special_pythagorean_triplet;

verus! {

} // verus!

//! Mathematical operations: array helpers and factors, palindromes, prime algorithms,
//! sequences, square sums and triangular numbers.
use vstd::prelude::*;

pub mod common;
pub mod fibonacci;
pub mod palindrome;
pub mod prime_algorithms;
pub mod sequence;
pub mod sequences;
pub mod square_operations;
pub mod triangular_numbers;

verus! {

} // verus!

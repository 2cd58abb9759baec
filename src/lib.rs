//! Elementary number theory: prime sieving and primality testing, factors,
//! integer sequences and array helpers, each with a verified contract.
use vstd::prelude::*;

pub mod array_manipulations;
pub mod clock;
pub mod common;
pub mod divisors;
pub mod euler_specific;
pub mod factorizations;
pub mod general;
pub mod mathematics;
pub mod model;
pub mod palindrome;
pub mod primality;
pub mod prime;
pub mod primes;
pub mod sequence;
pub mod sequences;
pub mod summations;
pub mod trigonometry;

verus! {

/// A numeric result, or a message saying why there is none, with the time it took.
pub struct ERAMath<T> {
    pub result: Result<T, String>,
    pub duration: std::time::Duration,
}

impl<T> ERAMath<T> {
    /// Bundles a result with the time it took.
    pub fn new(result: Result<T, String>, duration: std::time::Duration) -> (r: Self)
        ensures
            r.result == result,
            r.duration == duration,
    {
        ERAMath { result, duration }
    }
}

/// A yes-or-no result, or a message saying why there is none, with the time it took.
pub struct ERABool {
    pub result: Result<bool, String>,
    pub duration: std::time::Duration,
}

impl ERABool {
    /// Bundles a result with the time it took.
    pub fn new(result: Result<bool, String>, duration: std::time::Duration) -> (r: Self)
        ensures
            r.result == result,
            r.duration == duration,
    {
        ERABool { result, duration }
    }
}

/// A text result, or a message saying why there is none, with the time it took.
pub struct ERAString {
    pub result: Result<String, String>,
    pub duration: std::time::Duration,
}

impl ERAString {
    /// Bundles a result with the time it took.
    pub fn new(result: Result<String, String>, duration: std::time::Duration) -> (r: Self)
        ensures
            r.result == result,
            r.duration == duration,
    {
        ERAString { result, duration }
    }
}

} // verus!

//! The carrier of the trigonometric helpers, which work on floating-point numbers and so stand
//! outside the verified library.
use vstd::prelude::*;

verus! {

/// The trigonometric helpers (the law of cosines) hang off this type.
pub struct ERATrigonometry;

} // verus!

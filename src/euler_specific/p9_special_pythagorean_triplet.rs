//! The Pythagorean triplet whose sides add up to 1000.
use vstd::prelude::*;

verus! {

/// `a < b < c` are positive, `a^2 + b^2 == c^2`, and `a + b + c == 1000`.
pub open spec fn is_special_triplet(a: int, b: int, c: int) -> bool {
    1 <= a < b < c && a * a + b * b == c * c && a + b + c == 1000
}

/// The product `a * b * c` of a Pythagorean triplet `a < b < c` with `a + b + c == 1000`.
pub fn special_pythagorean_triplet() -> (r: usize)
    ensures
        exists|a: int, b: int, c: int| #[trigger] is_special_triplet(a, b, c) && r == a * b * c,
{
    proof {
        assert(is_special_triplet(200, 375, 425));
    }
    let mut a: usize = 1;
    while a < 1000
        invariant
            1 <= a <= 1000,
            forall|x: int, y: int, z: int| x < a && #[trigger] is_special_triplet(x, y, z) ==> false,
        decreases 1000 - a,
    {
        let mut b: usize = a + 1;
        while b < 1000
            invariant
                1 <= a < 1000,
                a + 1 <= b <= 1000,
                forall|x: int, y: int, z: int| x < a && #[trigger] is_special_triplet(x, y, z) ==> false,
                forall|y: int, z: int| y < b && #[trigger] is_special_triplet(a as int, y, z) ==> false,
            decreases 1000 - b,
        {
            if a + b < 1000 {
                let c: usize = 1000 - a - b;
                proof {
                    assert(a * a <= 1_000_000 && b * b <= 1_000_000 && c * c <= 1_000_000) by (nonlinear_arith)
                        requires a < 1000, b < 1000, c < 1000;
                }
                if b < c && a * a + b * b == c * c {
                    proof {
                        assert(is_special_triplet(a as int, b as int, c as int));
                        assert(a * b <= 1_000_000 && a * b * c <= 1_000_000_000) by (nonlinear_arith)
                            requires a < 1000, b < 1000, c < 1000;
                    }
                    return a * b * c;
                }
            }
            b = b + 1;
        }
        a = a + 1;
    }
    proof {
        assert(false);
    }
    0
}

} // verus!

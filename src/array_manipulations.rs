//! Cleaning and merging arrays of unsigned integers.
use vstd::prelude::*;

verus! {

/// Relies on `slice::sort`: afterwards the entries ascend and are the same multiset.
#[verifier::external_body]
fn sort_ascending(v: &mut Vec<usize>)
    ensures
        final(v)@.to_multiset() == old(v)@.to_multiset(),
        forall|i: int, j: int| 0 <= i <= j < final(v)@.len() ==> #[trigger] final(v)@[i] <= #[trigger] final(v)@[j],
{
    v.sort();
}

/// The distinct values of `array`, ascending. The array must not be empty.
pub fn array_clean(array: &Vec<usize>) -> (r: Vec<usize>)
    requires
        array.len() > 0,
    ensures
        forall|i: int, j: int| 0 <= i < j < r.len() ==> #[trigger] r@[i] < #[trigger] r@[j],
        forall|x: usize| #[trigger] r@.contains(x) <==> array@.contains(x),
{
    let mut sorted: Vec<usize> = array.clone();
    assert(sorted@ =~= array@);
    sort_ascending(&mut sorted);
    proof {
        broadcast use vstd::seq_lib::group_to_multiset_ensures;
        assert forall|x: usize| #[trigger] sorted@.contains(x) <==> array@.contains(x) by {
            assert(sorted@.contains(x) <==> sorted@.to_multiset().count(x) > 0);
            assert(array@.contains(x) <==> array@.to_multiset().count(x) > 0);
        }
    }
    let mut storage: Vec<usize> = Vec::new();
    let mut i: usize = 0;
    while i < sorted.len()
        invariant
            i <= sorted@.len(),
            forall|a: int, b: int| 0 <= a <= b < sorted@.len() ==> #[trigger] sorted@[a] <= #[trigger] sorted@[b],
            forall|a: int, b: int| 0 <= a < b < storage.len() ==> #[trigger] storage@[a] < #[trigger] storage@[b],
            i > 0 ==> storage.len() > 0 && storage@.last() == sorted@[i - 1],
            i == 0 ==> storage.len() == 0,
            forall|x: usize| #[trigger] storage@.contains(x) <==> exists|b: int| 0 <= b < i && sorted@[b] == x,
        decreases sorted@.len() - i,
    {
        let x = sorted[i];
        let ghost before = storage@;
        if i == 0 || storage[storage.len() - 1] != x {
            proof {
                if i > 0 {
                    assert(sorted@[i - 1] <= sorted@[i as int]);
                    assert forall|a: int| 0 <= a < before.len() implies #[trigger] before[a] < x by {
                        if a < before.len() - 1 {
                            assert(before[a] < before[before.len() - 1]);
                        }
                    }
                }
            }
            storage.push(x);
        }
        proof {
            assert forall|y: usize| #[trigger] storage@.contains(y) <==> exists|b: int| 0 <= b < i + 1 && sorted@[b] == y by {
                if before.contains(y) {
                    let k = choose|k: int| 0 <= k < before.len() && before[k] == y;
                    assert(storage@[k] == y);
                }
                if y == x {
                    assert(storage@[storage.len() - 1] == y);
                }
                if storage@.contains(y) && y != x {
                    let k = choose|k: int| 0 <= k < storage@.len() && storage@[k] == y;
                    assert(before[k] == y);
                }
                if exists|b: int| 0 <= b < i + 1 && sorted@[b] == y {
                    let b = choose|b: int| 0 <= b < i + 1 && sorted@[b] == y;
                    if b < i {
                        assert(before.contains(y));
                    }
                }
            }
        }
        i = i + 1;
    }
    proof {
        assert forall|y: usize| #[trigger] storage@.contains(y) <==> array@.contains(y) by {
            if sorted@.contains(y) {
                let b = choose|b: int| 0 <= b < sorted@.len() && sorted@[b] == y;
            }
        }
    }
    storage
}

/// The entries of `array1` followed by those of `array2`.
pub fn array_merge(array1: &Vec<usize>, array2: &Vec<usize>) -> (r: Vec<usize>)
    ensures
        r@ == array1@ + array2@,
{
    let mut storage: Vec<usize> = array1.clone();
    assert(storage@ =~= array1@);
    let mut j: usize = 0;
    while j < array2.len()
        invariant
            j <= array2@.len(),
            storage@ == array1@ + array2@.subrange(0, j as int),
        decreases array2@.len() - j,
    {
        storage.push(array2[j]);
        j = j + 1;
        assert(storage@ =~= array1@ + array2@.subrange(0, j as int));
    }
    assert(array2@.subrange(0, array2@.len() as int) =~= array2@);
    storage
}

} // verus!

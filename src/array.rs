//! Fixed-size arrays filled from a list.

use vstd::prelude::*;

verus! {

/// An array of `N` items: the first `N` of `items`, then copies of one
/// default value where `items` runs out.
pub fn array_from_iterator<I: Copy + Default, const N: usize>(items: &[I]) -> (r: [I; N])
    ensures
        forall|i: int| 0 <= i < N && i < items@.len() ==> r@[i] == items@[i],
        forall|i: int, j: int|
            items@.len() <= i < N && items@.len() <= j < N ==> r@[i] == r@[j],
{
    let fill = I::default();
    let mut output: [I; N] = [fill; N];
    let mut i: usize = 0;
    while i < items.len() && i < N
        invariant
            i <= N,
            i <= items@.len(),
            output@.len() == N,
            forall|j: int| 0 <= j < i ==> output@[j] == items@[j],
            forall|j: int| i <= j < N ==> output@[j] == fill,
        decreases N - i,
    {
        output[i] = items[i];
        i = i + 1;
    }
    output
}

} // verus!

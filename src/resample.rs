use vstd::prelude::*;
use rand::rngs::StdRng;
use rand::Rng;

verus! {

/// The standard seedable generator of `rand`, carried through unchanged.
#[verifier::external_type_specification]
#[verifier::external_body]
pub struct ExStdRng(rand::rngs::StdRng);

/// Relies on `rand::Rng::gen_range` over `0..n`: a uniformly drawn index
/// below `n`. It panics on an empty range, which `n > 0` rules out.
#[verifier::external_body]
fn draw_index(rng: &mut StdRng, n: usize) -> (i: usize)
    requires
        n > 0,
    ensures
        i < n,
{
    rng.gen_range(0..n)
}

/// One bootstrap resample of a sample of `n` values: `n` positions drawn
/// independently and uniformly, with replacement, from `0..n`.
pub fn resample_indices(rng: &mut StdRng, n: usize) -> (idx: Vec<usize>)
    requires
        n > 0,
    ensures
        idx@.len() == n,
        forall|k: int| 0 <= k < n ==> idx@[k] < n,
{
    let mut idx: Vec<usize> = Vec::new();
    let mut k: usize = 0;
    while k < n
        invariant
            k <= n,
            idx@.len() == k,
            forall|m: int| 0 <= m < k ==> idx@[m] < n,
        decreases n - k,
    {
        let i = draw_index(rng, n);
        idx.push(i);
        k = k + 1;
    }
    idx
}

} // verus!

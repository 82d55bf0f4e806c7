//! Seeded random draws.
//!
//! Every random decision of the field spawner reseeds the generator with a
//! counter derived from the distance traveled, so the whole field is a
//! function of that distance.  One trusted wrapper performs the seeded draw;
//! everything else here is ordinary verified code over the draw's name.

use vstd::prelude::*;

verus! {

/// The value that a wyrand generator freshly seeded with `seed` yields as its
/// first draw below `bound`.  wyrand is a fixed algorithm whose state is
/// exactly the seed, so this is a function of the two arguments alone.
pub uninterp spec fn seeded_draw(seed: u64, bound: u64) -> u64;

/// Relies on `fastrand::Rng::with_seed` and `fastrand::Rng::u64`: `with_seed`
/// stores the seed as the generator's whole state, and `u64(0..bound)` maps
/// the generator's next output into `[0, bound)`, panicking only on an empty
/// range.  The result is therefore a function of `seed` and `bound` alone and
/// lies below `bound`.
#[verifier::external_body]
pub(crate) fn draw(seed: u64, bound: u64) -> (r: u64)
    requires
        1 <= bound,
    ensures
        r == seeded_draw(seed, bound),
        r < bound,
{
    let mut rng = fastrand::Rng::with_seed(seed);
    rng.u64(0..bound)
}

/// The seed that follows `s`: the counter wraps around at the top of `u64`.
pub open spec fn step_seed(s: u64) -> u64 {
    if s == 0xffff_ffff_ffff_ffffu64 {
        0u64
    } else {
        (s + 1) as u64
    }
}

/// The `k`-th seed of the stream that starts at `base`.
pub open spec fn seed_at(base: u64, k: nat) -> u64
    decreases k,
{
    if k == 0 {
        base
    } else {
        step_seed(seed_at(base, (k - 1) as nat))
    }
}

/// Advances the seed counter by one.
pub(crate) fn next_seed(s: u64) -> (r: u64)
    ensures
        r == step_seed(s),
{
    s.wrapping_add(1)
}

} // verus!

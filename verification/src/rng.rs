use rand::rngs::SmallRng;
use rand::Rng;
use vstd::prelude::*;

verus! {

/// rand's small fast generator `rand::rngs::SmallRng`, declared so that verified code can
/// pass it to the draws below; nothing of its state is visible here.
#[verifier::external_type_specification]
#[verifier::external_body]
pub struct ExSmallRng(SmallRng);

/// Draws from `rng` with rand's `Rng::gen_range(0..=hi)`. Claimed: the result lies in
/// `[0, hi]` (the range is never empty, so the call does not panic). Which value comes out
/// depends on the generator's state and is not stated.
#[verifier::external_body]
pub(crate) fn random_index_inclusive(rng: &mut SmallRng, hi: usize) -> (r: usize)
    ensures
        r <= hi,
{
    rng.gen_range(0..=hi)
}

/// Draws from `rng` with rand's `Rng::gen_range(0..len)`. Claimed: for `len > 0` (an empty
/// range panics) the result lies in `[0, len)`. Which value comes out depends on the
/// generator's state and is not stated.
#[verifier::external_body]
fn random_index_below(rng: &mut SmallRng, len: usize) -> (r: usize)
    requires
        len > 0,
    ensures
        r < len,
{
    rng.gen_range(0..len)
}

/// A uniformly drawn position in a list of `len` items, or `None` when the list is empty
/// (nothing is drawn then).
pub fn pick_index(rng: &mut SmallRng, len: usize) -> (r: Option<usize>)
    ensures
        len == 0 <==> r is None,
        r matches Some(i) ==> i < len,
{
    if len == 0 {
        None
    } else {
        Some(random_index_below(rng, len))
    }
}

} // verus!

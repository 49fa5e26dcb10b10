//! Random choices. Each function here draws from the generator of the
//! running thread, so of its result only what holds of every draw is known.

use vstd::prelude::*;

verus! {

/// `rand::Rng::gen_range` on `rand::thread_rng()`, for the range `0..n`:
/// some number below `n`. The range must not be empty.
#[verifier::external_body]
pub(crate) fn random_below(n: usize) -> (r: usize)
    requires
        n > 0,
    ensures
        r < n,
{
    rand::Rng::gen_range(&mut rand::thread_rng(), 0..n)
}

/// `rand::Rng::gen_range` on `rand::thread_rng()`, for the range
/// `low..=high`: some character from `low` to `high`. The range must not be
/// empty.
#[verifier::external_body]
pub(crate) fn random_char(low: char, high: char) -> (r: char)
    requires
        low <= high,
    ensures
        low <= r <= high,
{
    rand::Rng::gen_range(&mut rand::thread_rng(), low..=high)
}

/// `rand::seq::SliceRandom::choose` with `rand::thread_rng()`: one of the
/// items of the slice, or none where the slice is empty.
#[verifier::external_body]
pub(crate) fn random_item<T>(slice: &[T]) -> (r: Option<&T>)
    ensures
        r.is_some() == (slice@.len() > 0),
        r matches Some(item) ==> slice@.contains(*item),
{
    rand::seq::SliceRandom::choose(slice, &mut rand::thread_rng())
}

/// `rand::random` for `usize`: any number.
#[verifier::external_body]
pub(crate) fn random_usize() -> usize {
    rand::random::<usize>()
}

/// `rand::Rng::gen` on `rand::thread_rng()`, for `u32`: any number.
#[verifier::external_body]
pub(crate) fn random_u32() -> u32 {
    rand::Rng::gen::<u32>(&mut rand::thread_rng())
}

} // verus!

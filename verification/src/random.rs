//! Three values of which any one may be handed out.

use vstd::prelude::*;
use crate::chance::random_usize;

verus! {

/// Three values; looking into them gives one of the three at random.
pub struct Random<T>(pub [T; 3]);

impl<T> Random<T> {
    /// One of the three values, whichever comes up.
    pub fn deref(&self) -> (r: &T)
        ensures
            exists|i: int| 0 <= i < 3 && *r == self.0[i],
    {
        let idx = random_usize() % 3;
        &self.0[idx]
    }
}

} // verus!

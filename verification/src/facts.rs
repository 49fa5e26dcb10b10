//! Facts about types, told at random.

use vstd::prelude::*;
use std::marker::PhantomData;
use crate::chance::random_below;

verus! {

/// The facts that there are to tell about `Vec`.
pub const FACTS_FOR_VEC: [&'static str; 3] = [
    "Vec is heap-allocated",
    "Vec may re-allocate on growing",
    "Vec is best collection EVAR!!!!1!",
];

/// Someone who knows facts about the type `T`.
pub struct Fact<T> {
    _ph: PhantomData<T>,
}

impl<T> Fact<T> {
    /// Someone who knows facts about `T`.
    pub fn new() -> Self {
        Self { _ph: PhantomData }
    }
}

impl Fact<Vec<u64>> {
    /// One of the facts about `Vec`, whichever comes up.
    pub fn fact(&self) -> (r: &'static str)
        ensures
            exists|i: int| 0 <= i < 3 && r == FACTS_FOR_VEC[i],
    {
        let i = random_below(3);
        FACTS_FOR_VEC[i]
    }
}

} // verus!

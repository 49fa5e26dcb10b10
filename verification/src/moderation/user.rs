//! The author of a post.

use vstd::prelude::*;

verus! {

/// The number of a user.
#[derive(Clone, Debug, PartialEq)]
pub struct Id(pub u64);

} // verus!

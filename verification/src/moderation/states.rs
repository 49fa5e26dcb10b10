//! How far a post has come.

use vstd::prelude::*;

verus! {

/// A stage of moderation. The stages are the four of this file.
pub trait Sealed {
}

/// Published by its author, waiting for a moderator.
pub struct Unmoderated;

/// Allowed by a moderator.
pub struct Published;

/// Taken down after it was allowed.
pub struct Deleted;

/// Written, and not shown to anybody yet.
pub struct New;

impl Sealed for Unmoderated {
}

impl Sealed for Published {
}

impl Sealed for Deleted {
}

impl Sealed for New {
}

} // verus!

//! The rows of the roles table.

use vstd::prelude::*;

verus! {

/// A role: the path-like slug that names it, what it is for, and the
/// permissions it carries.
#[derive(Debug)]
pub struct Role {
    pub slug: String,
    pub description: Option<String>,
    pub perms: i16,
}

/// The most that a role may be permitted: read, write and execute.
pub const MAX_PERMS: u8 = 7;

impl Role {
    /// A role with the given slug and description. It is permitted what
    /// `permit` says, and never more than `MAX_PERMS`.
    pub fn new(slug: String, description: Option<String>, permit: u8) -> (r: Role)
        ensures
            r.slug == slug,
            r.description == description,
            r.perms == (if permit <= 7 {
                permit as int
            } else {
                7
            }),
    {
        let perms: u8 = if permit <= MAX_PERMS {
            permit
        } else {
            MAX_PERMS
        };
        Role { slug, description, perms: perms as i16 }
    }
}

} // verus!

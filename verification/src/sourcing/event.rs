//! What can happen to a user.

use vstd::prelude::*;
use std::time::SystemTime;
use crate::sourcing::user;

verus! {

/// A user was created.
#[derive(Debug)]
pub struct UserCreated {
    pub user_id: user::Id,
    pub at: user::CreationDateTime,
}

/// A user took a new name, or dropped the name.
#[derive(Debug)]
pub struct UserNameUpdated {
    pub user_id: user::Id,
    pub name: Option<user::Name>,
    pub at: SystemTime,
}

/// A user came online.
#[derive(Debug)]
pub struct UserBecameOnline {
    pub user_id: user::Id,
    pub at: SystemTime,
}

/// A user went offline.
#[derive(Debug)]
pub struct UserBecameOffline {
    pub user_id: user::Id,
    pub at: SystemTime,
}

/// A user was deleted.
#[derive(Debug)]
pub struct UserDeleted {
    pub user_id: user::Id,
    pub at: user::DeletionDateTime,
}

} // verus!

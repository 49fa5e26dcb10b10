//! A user, as the events on it have left it.

use vstd::prelude::*;
use std::time::SystemTime;
use crate::sourcing::EventSourced;
use crate::sourcing::event;

verus! {

/// A point in time as the system clock gives it. Nothing is known of it
/// but which value it is.
#[verifier::external_type_specification]
#[verifier::external_body]
pub struct ExSystemTime(SystemTime);

/// `Clone::clone` of a boxed string slice: the copy holds the same letters.
pub assume_specification[ <Box<str> as Clone>::clone ](b: &Box<str>) -> (r: Box<str>)
    ensures
        r@ == b@,
;

/// The number of a user.
#[derive(Clone, Copy, Debug)]
pub struct Id(pub u64);

/// The name of a user.
#[derive(Debug)]
pub struct Name(pub Box<str>);

/// When a user was created.
#[derive(Clone, Copy, Debug)]
pub struct CreationDateTime(pub SystemTime);

/// When a user was last seen to do something.
#[derive(Clone, Copy, Debug)]
pub struct LastActivityDateTime(pub SystemTime);

/// When a user was deleted.
#[derive(Clone, Copy, Debug)]
pub struct DeletionDateTime(pub SystemTime);

impl View for Name {
    type V = Seq<char>;

    open spec fn view(&self) -> Seq<char> {
        self.0@
    }
}

impl Clone for Name {
    fn clone(&self) -> (r: Self)
        ensures
            r@ == self@,
    {
        Name(self.0.clone())
    }
}

/// The name that a name or none stands for: its letters, if there is one.
pub open spec fn letters(name: Option<Name>) -> Option<Seq<char>> {
    match name {
        Some(n) => Some(n@),
        None => None,
    }
}

/// A user.
#[derive(Debug)]
pub struct User {
    pub id: Id,
    pub name: Option<Name>,
    pub online_since: Option<SystemTime>,
    pub created_at: CreationDateTime,
    pub last_activity_at: LastActivityDateTime,
    pub deleted_at: Option<DeletionDateTime>,
}

impl EventSourced<event::UserCreated> for User {
    /// The user gets the number and the time of the event, and was last
    /// active at that time.
    open spec fn leads(&self, ev: &event::UserCreated, after: &Self) -> bool {
        &&& after.id == ev.user_id
        &&& after.created_at == ev.at
        &&& after.last_activity_at == LastActivityDateTime(ev.at.0)
        &&& after.name == self.name
        &&& after.online_since == self.online_since
        &&& after.deleted_at == self.deleted_at
    }

    fn apply(&mut self, ev: &event::UserCreated) {
        self.id = ev.user_id;
        self.created_at = ev.at;
        self.last_activity_at = LastActivityDateTime(ev.at.0);
    }
}

impl EventSourced<event::UserNameUpdated> for User {
    /// The user gets the name of the event, or loses the name.
    open spec fn leads(&self, ev: &event::UserNameUpdated, after: &Self) -> bool {
        &&& letters(after.name) == letters(ev.name)
        &&& after.id == self.id
        &&& after.online_since == self.online_since
        &&& after.created_at == self.created_at
        &&& after.last_activity_at == self.last_activity_at
        &&& after.deleted_at == self.deleted_at
    }

    fn apply(&mut self, ev: &event::UserNameUpdated) {
        self.name = match &ev.name {
            Some(n) => Some(n.clone()),
            None => None,
        };
    }
}

impl EventSourced<event::UserBecameOnline> for User {
    /// The user is online since the time of the event.
    open spec fn leads(&self, ev: &event::UserBecameOnline, after: &Self) -> bool {
        &&& after.online_since == Some(ev.at)
        &&& after.id == self.id
        &&& after.name == self.name
        &&& after.created_at == self.created_at
        &&& after.last_activity_at == self.last_activity_at
        &&& after.deleted_at == self.deleted_at
    }

    fn apply(&mut self, ev: &event::UserBecameOnline) {
        self.online_since = Some(ev.at);
    }
}

impl EventSourced<event::UserBecameOffline> for User {
    /// The user is no longer online, and was last active at the time of the
    /// event.
    open spec fn leads(&self, ev: &event::UserBecameOffline, after: &Self) -> bool {
        &&& after.online_since.is_none()
        &&& after.last_activity_at == LastActivityDateTime(ev.at)
        &&& after.id == self.id
        &&& after.name == self.name
        &&& after.created_at == self.created_at
        &&& after.deleted_at == self.deleted_at
    }

    fn apply(&mut self, ev: &event::UserBecameOffline) {
        self.online_since = None;
        self.last_activity_at = LastActivityDateTime(ev.at);
    }
}

impl EventSourced<event::UserDeleted> for User {
    /// The user is deleted at the time of the event, and was last active
    /// then.
    open spec fn leads(&self, ev: &event::UserDeleted, after: &Self) -> bool {
        &&& after.deleted_at == Some(ev.at)
        &&& after.last_activity_at == LastActivityDateTime(ev.at.0)
        &&& after.id == self.id
        &&& after.name == self.name
        &&& after.online_since == self.online_since
        &&& after.created_at == self.created_at
    }

    fn apply(&mut self, ev: &event::UserDeleted) {
        self.deleted_at = Some(ev.at);
        self.last_activity_at = LastActivityDateTime(ev.at.0);
    }
}

} // verus!

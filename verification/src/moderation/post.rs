//! A post and the steps that take it from one stage to the next.

use vstd::prelude::*;
use std::marker::PhantomData;
use crate::moderation::states::{Deleted, New, Published, Sealed, Unmoderated};
use crate::moderation::user;

verus! {

/// The number of a post.
#[derive(Clone, Debug, PartialEq)]
pub struct Id(pub u64);

/// The title of a post.
#[derive(Clone, Debug, PartialEq)]
pub struct Title(pub String);

/// The text of a post.
#[derive(Clone, Debug, PartialEq)]
pub struct Body(pub String);

/// A post at the stage `State`.
pub struct Post<State: Sealed> {
    id: Id,
    user_id: user::Id,
    title: Title,
    body: Body,
    _ph: PhantomData<State>,
}

/// What a post holds, whatever its stage.
pub struct Content {
    pub id: u64,
    pub user_id: u64,
    pub title: Seq<char>,
    pub body: Seq<char>,
}

impl<State: Sealed> View for Post<State> {
    type V = Content;

    closed spec fn view(&self) -> Content {
        Content {
            id: self.id.0,
            user_id: self.user_id.0,
            title: self.title.0@,
            body: self.body.0@,
        }
    }
}

impl<State: Sealed> Post<State> {
    /// The number of the post.
    pub fn id(&self) -> (r: u64)
        ensures
            r == self@.id,
    {
        self.id.0
    }

    /// The number of the post's author.
    pub fn user_id(&self) -> (r: u64)
        ensures
            r == self@.user_id,
    {
        self.user_id.0
    }

    /// The title of the post.
    pub fn title(&self) -> (r: &str)
        ensures
            r@ == self@.title,
    {
        self.title.0.as_str()
    }

    /// The text of the post.
    pub fn body(&self) -> (r: &str)
        ensures
            r@ == self@.body,
    {
        self.body.0.as_str()
    }
}

impl Post<New> {
    /// A post that was just written.
    pub fn new(id: Id, user_id: user::Id, title: Title, body: Body) -> (r: Post<New>)
        ensures
            r@ == (Content { id: id.0, user_id: user_id.0, title: title.0@, body: body.0@ }),
    {
        Post { id, user_id, title, body, _ph: PhantomData }
    }

    /// The author publishes the post: it now waits for a moderator.
    pub fn publish(self) -> (r: Post<Unmoderated>)
        ensures
            r@ == self@,
    {
        Post {
            _ph: PhantomData,
            id: self.id,
            user_id: self.user_id,
            title: self.title,
            body: self.body,
        }
    }
}

impl Post<Unmoderated> {
    /// A moderator allows the post.
    pub fn allow(self) -> (r: Post<Published>)
        ensures
            r@ == self@,
    {
        Post {
            _ph: PhantomData,
            id: self.id,
            user_id: self.user_id,
            title: self.title,
            body: self.body,
        }
    }
}

impl Post<Published> {
    /// The post is taken down.
    pub fn delete(self) -> (r: Post<Deleted>)
        ensures
            r@ == self@,
    {
        Post {
            _ph: PhantomData,
            id: self.id,
            user_id: self.user_id,
            title: self.title,
            body: self.body,
        }
    }
}

impl Post<Deleted> {
    /// The takedown is refused: the post waits for a moderator again.
    pub fn deny(self) -> (r: Post<Unmoderated>)
        ensures
            r@ == self@,
    {
        Post {
            _ph: PhantomData,
            id: self.id,
            user_id: self.user_id,
            title: self.title,
            body: self.body,
        }
    }
}

} // verus!

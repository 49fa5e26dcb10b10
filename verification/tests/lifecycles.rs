use idioms::error::Error;
use idioms::guess::{game_logic, GuessResult};
use idioms::moderation::post::{Body, Id, Post, Title};
use idioms::moderation::user;
use idioms::sourcing::event::{
    UserBecameOffline, UserBecameOnline, UserCreated, UserDeleted, UserNameUpdated,
};
use idioms::sourcing::user::{
    CreationDateTime, DeletionDateTime, LastActivityDateTime, Name, User,
};
use idioms::sourcing::{ApplyEv, EventSourced};
use std::time::{Duration, SystemTime};

#[test]
fn win() {
    let res = game_logic(10, 10);
    assert!(matches!(res, GuessResult::Won));
}

#[test]
fn greater() {
    let res = game_logic(11, 10);
    assert!(matches!(res, GuessResult::EnteredGreater));
}

#[test]
fn lesser() {
    let res = game_logic(9, 10);
    assert!(matches!(res, GuessResult::EnteredLess));
}

#[test]
fn guesses_at_the_ends_of_the_range() {
    assert_eq!(game_logic(0, u32::MAX), GuessResult::EnteredLess);
    assert_eq!(game_logic(u32::MAX, 0), GuessResult::EnteredGreater);
    assert_eq!(game_logic(u32::MAX, u32::MAX), GuessResult::Won);
}

#[test]
fn error_is_filled_in_step_by_step() {
    let mut err = Error::new("NO_USER");
    assert_eq!(err.code, "NO_USER");
    assert_eq!(err.status, 500);
    assert_eq!(err.message, "Unknown error has happened.");
    err.status(404).message("User not found");
    assert_eq!(err.code, "NO_USER");
    assert_eq!(err.status, 404);
    assert_eq!(err.message, "User not found");
}

#[test]
fn default_error_is_unknown() {
    let err = Error::default();
    assert_eq!(err.code, "UNKNOWN");
    assert_eq!(err.status, 500);
    assert_eq!(err.message, "Unknown error has happened.");
}

#[test]
fn post_keeps_its_content_through_moderation() {
    let post = Post::new(Id(7), user::Id(3), Title("Hello".into()), Body("First post".into()));
    let post = post.publish().allow().delete().deny().allow();
    assert_eq!(post.id(), 7);
    assert_eq!(post.user_id(), 3);
    assert_eq!(post.title(), "Hello");
    assert_eq!(post.body(), "First post");
}

fn blank_user(at: SystemTime) -> User {
    User {
        id: idioms::sourcing::user::Id(0),
        name: None,
        online_since: None,
        created_at: CreationDateTime(at),
        last_activity_at: LastActivityDateTime(at),
        deleted_at: None,
    }
}

#[test]
fn user_takes_events() {
    let start = SystemTime::UNIX_EPOCH;
    let t1 = start + Duration::from_secs(10);
    let t2 = start + Duration::from_secs(20);
    let t3 = start + Duration::from_secs(30);
    let t4 = start + Duration::from_secs(40);
    let id = idioms::sourcing::user::Id(5);
    let mut user = blank_user(start);

    EventSourced::apply(&mut user, &UserCreated { user_id: id, at: CreationDateTime(t1) });
    assert_eq!(user.id.0, 5);
    assert_eq!(user.created_at.0, t1);
    assert_eq!(user.last_activity_at.0, t1);

    let named = UserNameUpdated { user_id: id, name: Some(Name("Ann".into())), at: t2 };
    EventSourced::apply(&mut user, &named);
    assert_eq!(user.name.as_ref().map(|n| &*n.0), Some("Ann"));
    assert_eq!(user.last_activity_at.0, t1);

    EventSourced::apply(&mut user, &UserBecameOnline { user_id: id, at: t2 });
    assert_eq!(user.online_since, Some(t2));
    assert_eq!(user.last_activity_at.0, t1);

    EventSourced::apply(&mut user, &UserBecameOffline { user_id: id, at: t3 });
    assert_eq!(user.online_since, None);
    assert_eq!(user.last_activity_at.0, t3);

    EventSourced::apply(&mut user, &UserDeleted { user_id: id, at: DeletionDateTime(t4) });
    assert_eq!(user.deleted_at.map(|d| d.0), Some(t4));
    assert_eq!(user.last_activity_at.0, t4);
    assert_eq!(user.created_at.0, t1);
    assert_eq!(user.name.as_ref().map(|n| &*n.0), Some("Ann"));

    EventSourced::apply(&mut user, &UserNameUpdated { user_id: id, name: None, at: t4 });
    assert!(user.name.is_none());
}

#[test]
fn events_go_to_a_user() {
    let start = SystemTime::UNIX_EPOCH;
    let later = start + Duration::from_secs(60);
    let mut user = blank_user(start);
    let online = UserBecameOnline { user_id: idioms::sourcing::user::Id(1), at: later };
    ApplyEv::apply(&online, &mut user);
    assert_eq!(user.online_since, Some(later));
}

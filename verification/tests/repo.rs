use idioms::conf_path::{conf_path, DEFAULT_CONF_PATH};
use idioms::repo::{ImmutCollection, User, UserRepo};
use idioms::storage::{HashMapStorage, Storage, UserRepositoryStatic};
use std::collections::HashSet;

fn mk_col() -> ImmutCollection {
    let mut col = ImmutCollection::new();
    col.insert("id1", User::new("id1", "name1"));
    col.insert("id2", User::new("id2", "name2"));
    col.insert("not_id", User::new("not_id", "you"));
    col
}

#[test]
fn test_by_id() {
    let col = mk_col();

    let u = col.by_id("id1");

    assert_eq!(u, Some(User::new("id1", "name1")));
}

#[test]
fn test_by_ids() {
    let col = mk_col();

    let us: Vec<_> = col.by_ids(&vec!["id1".to_string(), "id2".to_string()]);

    assert_eq!(us, vec![User::new("id1", "name1"), User::new("id2", "name2")]);
}

#[test]
fn test_search() {
    let col = mk_col();

    let found: HashSet<_> = col.search("name").into_iter().collect();

    assert_eq!(found, HashSet::from([User::new("id1", "name1"), User::new("id2", "name2")]));
}

#[test]
fn by_id_of_a_missing_user() {
    let col = mk_col();
    assert_eq!(col.by_id("id3"), None);
    assert_eq!(col.by_id(""), None);
    assert_eq!(ImmutCollection::new().by_id("id1"), None);
}

#[test]
fn by_ids_skips_what_is_missing_and_keeps_the_order() {
    let col = mk_col();
    let ids: Vec<String> =
        ["id2", "nobody", "id1", "id2"].iter().map(|s| s.to_string()).collect();
    assert_eq!(
        col.by_ids(&ids),
        vec![User::new("id2", "name2"), User::new("id1", "name1"), User::new("id2", "name2")]
    );
    assert!(col.by_ids(&vec![]).is_empty());
}

#[test]
fn search_goes_by_the_name_and_not_by_the_key() {
    let mut col = ImmutCollection::new();
    col.insert("name", User::new("u1", "Ann"));
    col.insert("k2", User::new("u2", "Joanna"));
    col.insert("k3", User::new("u3", "Ann"));
    let mut found: Vec<String> = col.search("ann").iter().map(|u| u.id().to_string()).collect();
    found.sort();
    assert_eq!(found, vec!["u2"]);
    let mut found: Vec<String> = col.search("nn").iter().map(|u| u.id().to_string()).collect();
    found.sort();
    assert_eq!(found, vec!["u1", "u2", "u3"]);
    assert_eq!(col.search("").len(), 3);
    assert!(col.search("name").is_empty());
}

#[test]
fn insert_puts_a_user_in_place_of_another() {
    let mut col = mk_col();
    assert_eq!(col.insert("id1", User::new("id1", "renamed")), Some(User::new("id1", "name1")));
    assert_eq!(col.insert("id9", User::new("id9", "new")), None);
    assert_eq!(col.by_id("id1").map(|u| u.name().to_string()), Some("renamed".to_string()));
    assert_eq!(col.search("name").len(), 2);
}

fn user(id: u64, email: &'static str) -> idioms::storage::User {
    idioms::storage::User { id, email: email.into(), activated: true }
}

#[test]
fn repository_keeps_users_in_its_store() {
    let mut repo = UserRepositoryStatic::from(HashMapStorage::empty());
    assert!(repo.get(5).is_none());
    repo.set(5, user(5, "five@example.org"));
    repo.set(6, user(6, "six@example.org"));
    assert_eq!(repo.get(5).map(|u| u.email.as_ref()), Some("five@example.org"));
    repo.set(5, user(5, "cinq@example.org"));
    assert_eq!(repo.get(5).map(|u| u.email.as_ref()), Some("cinq@example.org"));
    assert_eq!(repo.remove(5).map(|u| u.id), Some(5));
    assert!(repo.get(5).is_none());
    assert!(repo.remove(5).is_none());
    assert_eq!(repo.get(6).map(|u| u.id), Some(6));
}

#[test]
fn store_sets_gets_and_removes() {
    let mut store = HashMapStorage::empty();
    store.set(1, user(1, "a@b.cd"));
    assert_eq!(store.get(&1).map(|u| u.activated), Some(true));
    assert!(store.get(&2).is_none());
    assert_eq!(store.remove(&1).map(|u| u.id), Some(1));
    assert!(store.get(&1).is_none());
}

fn args(list: &[&str]) -> Vec<String> {
    list.iter().map(|s| s.to_string()).collect()
}

#[test]
fn conf_path_from_the_command_line() {
    assert_eq!(
        conf_path(&args(&["app", "--conf", "my.conf"]), None).as_deref(),
        Ok("my.conf")
    );
    assert_eq!(
        conf_path(&args(&["app", "-v", "--conf", "a", "--conf", "b"]), Some("env.conf".into()))
            .as_deref(),
        Ok("a")
    );
    assert_eq!(
        conf_path(&args(&["app", "--conf", ""]), Some("env.conf".into())).as_deref(),
        Err(&"Err: empty conf argument")
    );
}

#[test]
fn conf_path_from_the_environment() {
    assert_eq!(conf_path(&args(&["app"]), Some("env.conf".into())).as_deref(), Ok("env.conf"));
    assert_eq!(
        conf_path(&args(&["app", "--conf"]), Some("env.conf".into())).as_deref(),
        Ok("env.conf")
    );
    assert_eq!(
        conf_path(&args(&["app", "x", "y"]), Some("".into())).as_deref(),
        Err(&"APP_CONF value is empty")
    );
}

#[test]
fn conf_path_by_default() {
    assert_eq!(conf_path(&args(&[]), None).as_deref(), Ok(DEFAULT_CONF_PATH));
    assert_eq!(conf_path(&args(&["app"]), None).as_deref(), Ok("/etc/app/app.conf"));
    assert_eq!(conf_path(&args(&["app", "--conf"]), None).as_deref(), Ok("/etc/app/app.conf"));
}

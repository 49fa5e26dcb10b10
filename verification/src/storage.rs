//! A store of values under keys, and a repository of users over any such
//! store.

use vstd::prelude::*;
use std::borrow::Cow;
use std::collections::HashMap;

verus! {

/// A store of values of type `V` under keys of type `K`.
pub trait Storage<K, V> {
    /// The value kept under each key.
    spec fn kept(&self) -> Map<K, V>;

    /// Keeps `val` under `key`, in place of what was kept there.
    fn set(&mut self, key: K, val: V)
        ensures
            final(self).kept() == old(self).kept().insert(key, val),
    ;

    /// The value kept under `key`, if there is one.
    fn get(&self, key: &K) -> (r: Option<&V>)
        ensures
            r == (if self.kept().contains_key(*key) {
                Some(&self.kept()[*key])
            } else {
                None
            }),
    ;

    /// Takes out what is kept under `key`, if there is something, and
    /// returns it.
    fn remove(&mut self, key: &K) -> (r: Option<V>)
        ensures
            final(self).kept() == old(self).kept().remove(*key),
            r == (if old(self).kept().contains_key(*key) {
                Some(old(self).kept()[*key])
            } else {
                None
            }),
    ;
}

/// A user of the service.
#[derive(Debug)]
pub struct User {
    pub id: u64,
    pub email: Cow<'static, str>,
    pub activated: bool,
}

/// A repository of users over the store `S`, which is chosen once and for
/// all when the repository is made.
pub struct UserRepositoryStatic<S: Storage<u64, User>> {
    store: S,
}

impl<S: Storage<u64, User>> UserRepositoryStatic<S> {
    /// The user kept under each id.
    pub closed spec fn users(&self) -> Map<u64, User> {
        self.store.kept()
    }

    /// A repository over `value`, with the users that `value` keeps.
    pub fn from(value: S) -> (r: Self)
        ensures
            r.users() == value.kept(),
    {
        Self { store: value }
    }

    /// Keeps `val` under `key`, in place of the user kept there.
    pub fn set(&mut self, key: u64, val: User)
        ensures
            final(self).users() == old(self).users().insert(key, val),
    {
        self.store.set(key, val)
    }

    /// The user kept under `key`, if there is one.
    pub fn get(&self, key: u64) -> (r: Option<&User>)
        ensures
            r == (if self.users().contains_key(key) {
                Some(&self.users()[key])
            } else {
                None
            }),
    {
        self.store.get(&key)
    }

    /// Takes out the user kept under `key`, if there is one, and returns
    /// that user.
    pub fn remove(&mut self, key: u64) -> (r: Option<User>)
        ensures
            final(self).users() == old(self).users().remove(key),
            r == (if old(self).users().contains_key(key) {
                Some(old(self).users()[key])
            } else {
                None
            }),
    {
        self.store.remove(&key)
    }
}

/// A store of users in a hash map.
pub struct HashMapStorage {
    map: HashMap<u64, User>,
}

impl HashMapStorage {
    /// A store that keeps nothing.
    pub fn empty() -> (r: Self)
        ensures
            r.kept() == Map::<u64, User>::empty(),
    {
        Self { map: HashMap::new() }
    }
}

impl Storage<u64, User> for HashMapStorage {
    closed spec fn kept(&self) -> Map<u64, User> {
        self.map@
    }

    fn set(&mut self, key: u64, val: User) {
        broadcast use vstd::std_specs::hash::group_hash_axioms;

        self.map.insert(key, val);
    }

    fn get(&self, key: &u64) -> (r: Option<&User>) {
        broadcast use vstd::std_specs::hash::group_hash_axioms;

        self.map.get(key)
    }

    fn remove(&mut self, key: &u64) -> (r: Option<User>) {
        broadcast use vstd::std_specs::hash::group_hash_axioms;

        self.map.remove(key)
    }
}

} // verus!

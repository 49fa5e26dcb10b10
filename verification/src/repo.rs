//! Users kept in a persistent hash map, and the ways to look them up.

use vstd::prelude::*;
use vstd::string::*;

verus! {

/// What a user is in contracts: the id, then the name.
pub type UserView = (Seq<char>, Seq<char>);

/// A user: an id and a name.
#[derive(Debug, PartialEq, Eq, Hash)]
pub struct User {
    id: String,
    name: String,
}

impl View for User {
    type V = UserView;

    closed spec fn view(&self) -> UserView {
        (self.id@, self.name@)
    }
}

impl Clone for User {
    fn clone(&self) -> (r: Self)
        ensures
            r@ == self@,
    {
        User { id: self.id.clone(), name: self.name.clone() }
    }
}

impl User {
    /// A user with this id and this name.
    pub fn new(id: &str, name: &str) -> (r: Self)
        ensures
            r@ == (id@, name@),
    {
        Self { id: id.to_owned(), name: name.to_owned() }
    }

    /// The id of the user.
    pub fn id(&self) -> (r: &str)
        ensures
            r@ == self@.0,
    {
        self.id.as_str()
    }

    /// The name of the user.
    pub fn name(&self) -> (r: &str)
        ensures
            r@ == self@.1,
    {
        self.name.as_str()
    }
}

/// The persistent hash map of the crate `im`.
#[verifier::external_type_specification]
#[verifier::external_body]
#[verifier::reject_recursive_types(K)]
#[verifier::reject_recursive_types(V)]
#[verifier::reject_recursive_types(S)]
pub struct ExImHashMap<K, V, S>(im::HashMap<K, V, S>);

/// A persistent hash map from keys to users.
pub type UserMap = im::HashMap<String, User>;

/// What a map of users holds: the user under each key.
pub uninterp spec fn held(map: UserMap) -> Map<Seq<char>, UserView>;

/// The map that holds no user.
pub open spec fn no_users() -> Map<Seq<char>, UserView> {
    Map::empty()
}

/// Whether `list` gives each entry of `entries` once, and nothing else.
pub open spec fn lists_entries(list: Seq<(String, User)>, entries: Map<Seq<char>, UserView>) -> bool {
    &&& forall|i: int|
        0 <= i < list.len() ==> entries.contains_key((#[trigger] list[i]).0@) && entries[list[i].0@]
            == list[i].1@
    &&& forall|k: Seq<char>|
        entries.contains_key(k) ==> exists|i: int| 0 <= i < list.len() && (#[trigger] list[i]).0@ == k
    &&& forall|i: int, j: int| 0 <= i < j < list.len() ==> list[i].0@ != list[j].0@
}

/// `im::HashMap::new`: a map that holds nothing.
#[verifier::external_body]
fn empty_map() -> (r: UserMap)
    ensures
        held(r) == no_users(),
{
    im::HashMap::new()
}

/// `im::HashMap::insert`: the map then holds `user` under `key`, in place of
/// what it held there, which is returned; the other keys keep what they
/// hold.
#[verifier::external_body]
fn put(map: &mut UserMap, key: String, user: User) -> (r: Option<User>)
    ensures
        held(*final(map)) == held(*old(map)).insert(key@, user@),
        r.is_some() == held(*old(map)).contains_key(key@),
        r matches Some(was) ==> was@ == held(*old(map))[key@],
{
    map.insert(key, user)
}

/// `im::HashMap::iter`, each key and user copied out: every entry of the map
/// once, in an order that nothing is said about.
#[verifier::external_body]
fn entries(map: &UserMap) -> (r: Vec<(String, User)>)
    ensures
        lists_entries(r@, held(*map)),
{
    let mut out = Vec::new();
    for (key, user) in map.iter() {
        out.push((key.clone(), user.clone()));
    }
    out
}

/// `str::contains` with a string as the pattern: whether `needle` occurs in
/// `hay` as a run of characters.
#[verifier::external_body]
fn has_text(hay: &str, needle: &str) -> (r: bool)
    ensures
        r == occurs_in(needle@, hay@),
{
    hay.contains(needle)
}

/// Whether `needle` occurs in `hay` as a run of characters.
pub open spec fn occurs_in(needle: Seq<char>, hay: Seq<char>) -> bool {
    exists|i: int|
        0 <= i && i + needle.len() <= hay.len() && #[trigger] hay.subrange(i, i + needle.len())
            == needle
}

/// The users found for `ids`, in the order of `ids`; an id that no user is
/// kept under gives nothing.
pub open spec fn users_of(users: Map<Seq<char>, UserView>, ids: Seq<Seq<char>>) -> Seq<UserView>
    decreases ids.len(),
{
    if ids.len() == 0 {
        Seq::<UserView>::empty()
    } else {
        let before = users_of(users, ids.drop_last());
        if users.contains_key(ids.last()) {
            before.push(users[ids.last()])
        } else {
            before
        }
    }
}

/// The keys under which `users` keeps a user whose name has `alike` in it.
pub open spec fn keys_alike(users: Map<Seq<char>, UserView>, alike: Seq<char>) -> Set<Seq<char>> {
    Set::new(|k: Seq<char>| users.contains_key(k) && occurs_in(alike, users[k].1))
}

/// Whether `found` holds, in some order, the user under each key of `keys`,
/// once for each key.
pub open spec fn holds_each(
    found: Seq<User>,
    users: Map<Seq<char>, UserView>,
    keys: Set<Seq<char>>,
) -> bool {
    exists|under: Seq<Seq<char>>| #[trigger]
        gives(found, users, keys, under)
}

/// Whether `found[i]` is the user kept under `under[i]`, and `under` names
/// each key of `keys` once.
pub open spec fn gives(
    found: Seq<User>,
    users: Map<Seq<char>, UserView>,
    keys: Set<Seq<char>>,
    under: Seq<Seq<char>>,
) -> bool {
    &&& under.len() == found.len()
    &&& under.no_duplicates()
    &&& under.to_set() == keys
    &&& forall|i: int|
        0 <= i < found.len() ==> users.contains_key(#[trigger] under[i]) && found[i]@
            == users[under[i]]
}

/// A place where users are kept and looked up.
pub trait UserRepo {
    /// The user kept under each key.
    spec fn users(&self) -> Map<Seq<char>, UserView>;

    /// The user kept under `id`, if there is one.
    fn by_id(&self, id: &str) -> (r: Option<User>)
        ensures
            r.is_some() == self.users().contains_key(id@),
            r matches Some(user) ==> user@ == self.users()[id@],
    ;

    /// The users kept under `ids`, in that order.
    fn by_ids(&self, ids: &Vec<String>) -> (r: Vec<User>)
        ensures
            r@.map_values(|u: User| u@) == users_of(self.users(), ids@.map_values(|s: String| s@)),
    ;

    /// The users whose name has `alike` in it, in no order.
    fn search(&self, alike: &str) -> (r: Vec<User>)
        ensures
            holds_each(r@, self.users(), keys_alike(self.users(), alike@)),
    ;
}

/// Users kept in a persistent hash map.
pub struct ImmutCollection(UserMap);

impl ImmutCollection {
    /// A collection without users.
    pub fn new() -> (r: Self)
        ensures
            r.users() == no_users(),
    {
        ImmutCollection(empty_map())
    }

    /// Keeps `user` under `key`, in place of the user kept there before,
    /// who is returned.
    pub fn insert(&mut self, key: &str, user: User) -> (r: Option<User>)
        ensures
            final(self).users() == old(self).users().insert(key@, user@),
            r.is_some() == old(self).users().contains_key(key@),
            r matches Some(was) ==> was@ == old(self).users()[key@],
    {
        put(&mut self.0, key.to_owned(), user)
    }
}

impl UserRepo for ImmutCollection {
    closed spec fn users(&self) -> Map<Seq<char>, UserView> {
        held(self.0)
    }

    fn by_id(&self, id: &str) -> (r: Option<User>) {
        let all = entries(&self.0);
        let wanted = id.to_owned();
        let mut i: usize = 0;
        while i < all.len()
            invariant
                i <= all.len(),
                wanted@ == id@,
                lists_entries(all@, held(self.0)),
                forall|j: int| 0 <= j < i ==> (#[trigger] all[j]).0@ != id@,
            decreases all.len() - i,
        {
            if all[i].0 == wanted {
                return Some(all[i].1.clone());
            }
            i = i + 1;
        }
        None
    }

    fn by_ids(&self, ids: &Vec<String>) -> (r: Vec<User>) {
        let mut out: Vec<User> = Vec::new();
        let mut i: usize = 0;
        while i < ids.len()
            invariant
                i <= ids.len(),
                out@.map_values(|u: User| u@) == users_of(
                    self.users(),
                    ids@.map_values(|s: String| s@).take(i as int),
                ),
            decreases ids.len() - i,
        {
            let ghost names = ids@.map_values(|s: String| s@);
            let ghost before = out@.map_values(|u: User| u@);
            proof {
                assert(names.take(i + 1).drop_last() =~= names.take(i as int));
                assert(names.take(i + 1).last() == ids[i as int]@);
            }
            match self.by_id(ids[i].as_str()) {
                Some(user) => {
                    out.push(user);
                    assert(out@.map_values(|u: User| u@) =~= before.push(user@));
                },
                None => {},
            }
            i = i + 1;
        }
        assert(ids@.map_values(|s: String| s@).take(ids.len() as int) =~= ids@.map_values(
            |s: String| s@,
        ));
        out
    }

    fn search(&self, alike: &str) -> (r: Vec<User>) {
        let all = entries(&self.0);
        let mut out: Vec<User> = Vec::new();
        let ghost mut under: Seq<Seq<char>> = Seq::empty();
        let ghost users = held(self.0);
        let mut i: usize = 0;
        while i < all.len()
            invariant
                i <= all.len(),
                users == held(self.0),
                lists_entries(all@, users),
                under.len() == out.len(),
                under.no_duplicates(),
                forall|j: int|
                    0 <= j < out.len() ==> users.contains_key(#[trigger] under[j]) && out[j]@
                        == users[under[j]],
                forall|j: int|
                    0 <= j < under.len() ==> occurs_in(alike@, users[#[trigger] under[j]].1)
                        && exists|k: int| 0 <= k < i && (#[trigger] all[k]).0@ == under[j],
                forall|k: int|
                    0 <= k < i && occurs_in(alike@, (#[trigger] all[k]).1@.1) ==> under.contains(
                        all[k].0@,
                    ),
            decreases all.len() - i,
        {
            if has_text(all[i].1.name(), alike) {
                let ghost key = all[i as int].0@;
                let ghost was = under;
                proof {
                    assert forall|j: int| 0 <= j < was.len() implies was[j] != key by {
                        let k = choose|k: int| 0 <= k < i && (#[trigger] all[k]).0@ == was[j];
                        assert(all[k].0@ != all[i as int].0@);
                    }
                    under = was.push(key);
                }
                out.push(all[i].1.clone());
                proof {
                    assert forall|k: int|
                        0 <= k < i + 1 && occurs_in(
                            alike@,
                            (#[trigger] all[k]).1@.1,
                        ) implies under.contains(all[k].0@) by {
                        if k < i {
                            let j = choose|j: int| 0 <= j < was.len() && was[j] == all[k].0@;
                            assert(under[j] == all[k].0@);
                        } else {
                            assert(under[was.len() as int] == key);
                        }
                    }
                    assert forall|j: int| 0 <= j < under.len() implies occurs_in(
                        alike@,
                        users[#[trigger] under[j]].1,
                    ) && exists|k: int| 0 <= k < i + 1 && (#[trigger] all[k]).0@ == under[j] by {
                        if j < was.len() {
                            let k = choose|k: int| 0 <= k < i && (#[trigger] all[k]).0@ == was[j];
                            assert(all[k].0@ == under[j]);
                        } else {
                            assert(all[i as int].0@ == under[j]);
                        }
                    }
                }
            } else {
                proof {
                    assert forall|j: int| 0 <= j < under.len() implies occurs_in(
                        alike@,
                        users[#[trigger] under[j]].1,
                    ) && exists|k: int| 0 <= k < i + 1 && (#[trigger] all[k]).0@ == under[j] by {
                        let k = choose|k: int| 0 <= k < i && (#[trigger] all[k]).0@ == under[j];
                        assert(all[k].0@ == under[j]);
                    }
                }
            }
            i = i + 1;
        }
        proof {
            let keys = keys_alike(users, alike@);
            assert(under.to_set() =~= keys) by {
                assert forall|k: Seq<char>| keys.contains(k) implies under.to_set().contains(k) by {
                    let at = choose|at: int| 0 <= at < all.len() && (#[trigger] all[at]).0@ == k;
                    assert(under.contains(all[at].0@));
                }
                assert forall|k: Seq<char>| under.to_set().contains(k) implies keys.contains(k) by {
                    let j = choose|j: int| 0 <= j < under.len() && under[j] == k;
                    assert(users.contains_key(under[j]));
                }
            }
            assert(gives(out@, users, keys, under));
        }
        out
    }
}

} // verus!

//! In-memory credential stores: the collaborator interface the core needs,
//! backed by a vector, safe to hand to the interceptor and the login and
//! registration flows, and a stand-in for a persistence engine in tests.
//! Each lookup is independent; nothing here is shared mutable state.

use vstd::prelude::*;
use crate::errors::AuthError;
use crate::models;
use crate::strutil::str_eq;
use crate::user::User;

verus! {

/// First stored user with the given username, if any.
pub open spec fn find_by_username(s: Seq<User>, name: Seq<char>) -> Option<User>
    decreases s.len(),
{
    if s.len() == 0 {
        None
    } else if s[0].username@ == name {
        Some(s[0])
    } else {
        find_by_username(s.drop_first(), name)
    }
}

/// First stored user with the given API key, if any.
pub open spec fn find_by_api_key(s: Seq<models::User>, key: Seq<char>) -> Option<models::User>
    decreases s.len(),
{
    if s.len() == 0 {
        None
    } else if s[0].api_key@ == key {
        Some(s[0])
    } else {
        find_by_api_key(s.drop_first(), key)
    }
}

/// Store of password-authenticated users, keyed by username.
pub struct CredentialStore {
    /// The stored records; ids are the positions shifted by one.
    pub users: Vec<User>,
}

impl CredentialStore {
    /// Well-formed store: ids follow the positions, usernames are unique.
    pub open spec fn wf(self) -> bool {
        &&& self.users@.len() < 0x7fff_ffff
        &&& forall|i: int| 0 <= i < self.users@.len() ==> #[trigger] self.users@[i].id == i + 1
        &&& forall|i: int, j: int|
            0 <= i < j < self.users@.len() ==> self.users@[i].username@ != self.users@[j].username@
    }

    /// An empty store.
    pub fn new() -> (s: Self)
        ensures
            s.wf(),
            s.users@.len() == 0,
    {
        CredentialStore { users: Vec::new() }
    }

    /// Index of the user with this username, if one is stored.
    pub fn find_user_by_username(&self, name: &str) -> (r: Option<usize>)
        ensures
            match r {
                Some(i) => i < self.users@.len() && find_by_username(self.users@, name@) == Some(
                    self.users@[i as int],
                ),
                None => find_by_username(self.users@, name@) is None,
            },
    {
        proof {
            assert(self.users@.skip(0) =~= self.users@);
        }
        let mut i: usize = 0;
        while i < self.users.len()
            invariant
                i <= self.users@.len(),
                find_by_username(self.users@, name@) == find_by_username(
                    self.users@.skip(i as int),
                    name@,
                ),
            decreases self.users@.len() - i,
        {
            proof {
                assert(self.users@.skip(i as int)[0] == self.users@[i as int]);
                assert(self.users@.skip(i as int).drop_first() =~= self.users@.skip(i as int + 1));
            }
            if str_eq(self.users[i].username.as_str(), name) {
                return Some(i);
            }
            i = i + 1;
        }
        proof {
            assert(self.users@.skip(i as int) =~= Seq::<User>::empty());
        }
        None
    }

    /// Persists a new user unless the username is taken; the new record gets
    /// the next id and the store stays well-formed. Conflict changes nothing.
    pub fn create_user(&mut self, username: &str, password_hash: &str) -> (r: Result<
        usize,
        AuthError,
    >)
        requires
            old(self).wf(),
            old(self).users@.len() < 0x7fff_fffe,
        ensures
            final(self).wf(),
            match r {
                Ok(i) => {
                    &&& find_by_username(old(self).users@, username@) is None
                    &&& i == old(self).users@.len()
                    &&& final(self).users@.len() == old(self).users@.len() + 1
                    &&& final(self).users@.subrange(0, i as int) == old(self).users@
                    &&& final(self).users@[i as int].id == i + 1
                    &&& final(self).users@[i as int].username@ == username@
                    &&& final(self).users@[i as int].password_hash@ == password_hash@
                },
                Err(e) => {
                    &&& e == AuthError::Conflict
                    &&& find_by_username(old(self).users@, username@) is Some
                    &&& *final(self) == *old(self)
                },
            },
    {
        if let Some(_) = self.find_user_by_username(username) {
            return Err(AuthError::Conflict);
        }
        proof {
            lemma_find_by_username_none(self.users@, username@);
        }
        let i = self.users.len();
        let id = (i + 1) as i32;
        let ghost before = self.users@;
        self.users.push(
            User {
                id,
                username: String::from_str(username),
                password_hash: String::from_str(password_hash),
            },
        );
        proof {
            assert(self.users@.subrange(0, i as int) =~= before);
        }
        Ok(i)
    }
}

/// Directory of API-key-authenticated users, keyed by the opaque key.
pub struct ApiKeyDirectory {
    /// The stored records.
    pub users: Vec<models::User>,
}

impl ApiKeyDirectory {
    /// Well-formed directory: API keys are unique.
    pub open spec fn wf(self) -> bool {
        forall|i: int, j: int|
            0 <= i < j < self.users@.len() ==> self.users@[i].api_key@ != self.users@[j].api_key@
    }

    /// An empty directory.
    pub fn new() -> (s: Self)
        ensures
            s.wf(),
            s.users@.len() == 0,
    {
        ApiKeyDirectory { users: Vec::new() }
    }

    /// Adds a record; refused when the key is already present.
    pub fn add_user(&mut self, user: models::User) -> (r: Result<(), AuthError>)
        requires
            old(self).wf(),
        ensures
            final(self).wf(),
            match r {
                Ok(()) => {
                    &&& find_by_api_key(old(self).users@, user.api_key@) is None
                    &&& final(self).users@ == old(self).users@.push(user)
                },
                Err(e) => {
                    &&& e == AuthError::Conflict
                    &&& find_by_api_key(old(self).users@, user.api_key@) is Some
                    &&& *final(self) == *old(self)
                },
            },
    {
        if let Some(_) = self.find_user_by_api_key(user.api_key.as_str()) {
            return Err(AuthError::Conflict);
        }
        proof {
            lemma_find_by_api_key_none(self.users@, user.api_key@);
        }
        self.users.push(user);
        Ok(())
    }

    /// Index of the user with this API key, if one is stored.
    pub fn find_user_by_api_key(&self, key: &str) -> (r: Option<usize>)
        ensures
            match r {
                Some(i) => i < self.users@.len() && find_by_api_key(self.users@, key@) == Some(
                    self.users@[i as int],
                ),
                None => find_by_api_key(self.users@, key@) is None,
            },
    {
        proof {
            assert(self.users@.skip(0) =~= self.users@);
        }
        let mut i: usize = 0;
        while i < self.users.len()
            invariant
                i <= self.users@.len(),
                find_by_api_key(self.users@, key@) == find_by_api_key(
                    self.users@.skip(i as int),
                    key@,
                ),
            decreases self.users@.len() - i,
        {
            proof {
                assert(self.users@.skip(i as int)[0] == self.users@[i as int]);
                assert(self.users@.skip(i as int).drop_first() =~= self.users@.skip(i as int + 1));
            }
            if str_eq(self.users[i].api_key.as_str(), key) {
                return Some(i);
            }
            i = i + 1;
        }
        proof {
            assert(self.users@.skip(i as int) =~= Seq::<models::User>::empty());
        }
        None
    }
}

/// A username that the search does not find is held by no record.
proof fn lemma_find_by_username_none(s: Seq<User>, name: Seq<char>)
    requires
        find_by_username(s, name) is None,
    ensures
        forall|i: int| 0 <= i < s.len() ==> #[trigger] s[i].username@ != name,
    decreases s.len(),
{
    if s.len() > 0 {
        lemma_find_by_username_none(s.drop_first(), name);
        assert forall|i: int| 0 <= i < s.len() implies s[i].username@ != name by {
            if i > 0 {
                assert(s.drop_first()[i - 1] == s[i]);
            }
        }
    }
}

/// An API key that the search does not find is held by no record.
proof fn lemma_find_by_api_key_none(s: Seq<models::User>, key: Seq<char>)
    requires
        find_by_api_key(s, key) is None,
    ensures
        forall|i: int| 0 <= i < s.len() ==> #[trigger] s[i].api_key@ != key,
    decreases s.len(),
{
    if s.len() > 0 {
        lemma_find_by_api_key_none(s.drop_first(), key);
        assert forall|i: int| 0 <= i < s.len() implies s[i].api_key@ != key by {
            if i > 0 {
                assert(s.drop_first()[i - 1] == s[i]);
            }
        }
    }
}

} // verus!

use vstd::prelude::*;

use crate::errors::Error;

verus! {

/// Mathematical model of one account record.
pub ghost struct UserV {
    pub username: Seq<char>,
    pub credential: Seq<char>,
    pub created_at: u64,
}

/// An account record: a unique username, the stored credential it is
/// verified against at login, and the registration timestamp.
#[derive(Debug)]
pub struct User {
    pub username: String,
    pub password_hash: String,
    pub created_at: u64,
}

impl View for User {
    type V = UserV;

    open spec fn view(&self) -> UserV {
        UserV {
            username: self.username@,
            credential: self.password_hash@,
            created_at: self.created_at,
        }
    }
}

impl Clone for User {
    /// A cloned account carries the same username, credential and timestamp.
    fn clone(&self) -> (r: Self)
        ensures
            r@ == self@,
    {
        User {
            username: self.username.clone(),
            password_hash: self.password_hash.clone(),
            created_at: self.created_at,
        }
    }
}

/// The inputs of a registration request.
#[derive(Debug)]
pub struct RegisterRequest {
    pub username: String,
    pub password: String,
}

/// The inputs of a login request.
#[derive(Debug)]
pub struct LoginRequest {
    pub username: String,
    pub password: String,
}

/// The registry is well formed when no two accounts share a username.
pub open spec fn users_wf(users: Seq<UserV>) -> bool {
    forall|i: int, j: int|
        #![trigger users[i].username, users[j].username]
        0 <= i < j < users.len() ==> users[i].username != users[j].username
}

/// Whether an account with the given username exists.
pub open spec fn has_user(users: Seq<UserV>, name: Seq<char>) -> bool {
    exists|i: int| 0 <= i < users.len() && users[i].username == name
}

/// The index of the account with the given username (unique when the
/// registry is well formed and the username exists).
pub open spec fn user_index(users: Seq<UserV>, name: Seq<char>) -> int {
    choose|i: int| 0 <= i < users.len() && users[i].username == name
}

/// The account stored under the given username.
pub open spec fn user_at(users: Seq<UserV>, name: Seq<char>) -> UserV {
    users[user_index(users, name)]
}

/// What registration does: reject a duplicate username and change
/// nothing, or append a fresh account stamped with `now`.
pub open spec fn register_spec(
    users: Seq<UserV>,
    username: Seq<char>,
    credential: Seq<char>,
    now: u64,
) -> (Seq<UserV>, Result<(), Error>) {
    if has_user(users, username) {
        (users, Err(Error::DuplicateUsername))
    } else {
        (users.push(UserV { username, credential, created_at: now }), Ok(()))
    }
}

/// What credential verification returns: the stored account exactly when
/// the username exists and the credential matches byte for byte.
pub open spec fn verify_spec(
    users: Seq<UserV>,
    username: Seq<char>,
    credential: Seq<char>,
) -> Result<UserV, Error> {
    if has_user(users, username) && user_at(users, username).credential == credential {
        Ok(user_at(users, username))
    } else {
        Err(Error::InvalidCredentials)
    }
}

/// The view of a vector of account records.
pub open spec fn users_view(accounts: Seq<User>) -> Seq<UserV> {
    accounts.map_values(|u: User| u@)
}

/// The user registry: the account table keyed by username.
pub struct UserRegistry {
    pub accounts: Vec<User>,
}

impl View for UserRegistry {
    type V = Seq<UserV>;

    open spec fn view(&self) -> Seq<UserV> {
        users_view(self.accounts@)
    }
}

impl UserRegistry {
    /// An empty registry.
    pub fn new() -> (r: Self)
        ensures
            r@ == Seq::<UserV>::empty(),
            users_wf(r@),
    {
        let r = UserRegistry { accounts: Vec::new() };
        proof {
            assert(r@ =~= Seq::<UserV>::empty());
        }
        r
    }

    /// The position of the account with the given username, if any.
    fn index_of_username(&self, name: &String) -> (r: Option<usize>)
        ensures
            match r {
                Some(i) => i < self.accounts.len() && self@[i as int].username == name@,
                None => !has_user(self@, name@),
            },
    {
        let n = self.accounts.len();
        let mut i: usize = 0;
        while i < n
            invariant
                n == self.accounts.len(),
                i <= n,
                forall|k: int| 0 <= k < i ==> self@[k].username != name@,
            decreases n - i,
        {
            if self.accounts[i].username == *name {
                return Some(i);
            }
            i += 1;
        }
        None
    }

    /// Registers a new account, stamped with the supplied timestamp.
    /// Fails when the username is already taken, changing nothing; does
    /// not log anyone in.
    pub fn register(&mut self, request: RegisterRequest, now: u64) -> (r: Result<(), Error>)
        requires
            users_wf(old(self)@),
        ensures
            users_wf(final(self)@),
            final(self)@ == register_spec(old(self)@, request.username@, request.password@, now).0,
            r == register_spec(old(self)@, request.username@, request.password@, now).1,
    {
        match self.index_of_username(&request.username) {
            Some(_) => Err(Error::DuplicateUsername),
            None => {
                let ghost prev = self@;
                let user = User {
                    username: request.username,
                    password_hash: request.password,
                    created_at: now,
                };
                let ghost uv = user@;
                self.accounts.push(user);
                proof {
                    assert(self@ =~= prev.push(uv));
                    assert forall|i: int, j: int|
                        0 <= i < j < self@.len() implies #[trigger] self@[i].username
                        != #[trigger] self@[j].username by {
                        if j == self@.len() - 1 {
                            assert(!has_user(prev, uv.username));
                            assert(prev[i].username != uv.username);
                        }
                    }
                }
                Ok(())
            }
        }
    }

    /// Verifies a login attempt: returns the stored account exactly when
    /// the username exists and the credential matches; a pure lookup.
    pub fn verify(&self, username: &String, credential: &String) -> (r: Result<User, Error>)
        requires
            users_wf(self@),
        ensures
            ({
                let v = verify_spec(self@, username@, credential@);
                match r {
                    Ok(u) => v == Ok::<UserV, Error>(u@),
                    Err(e) => v == Err::<UserV, Error>(e),
                }
            }),
    {
        match self.index_of_username(username) {
            None => Err(Error::InvalidCredentials),
            Some(i) => {
                proof {
                    assert(has_user(self@, username@));
                    let j = user_index(self@, username@);
                    assert(0 <= j < self@.len() && self@[j].username == username@);
                    assert(j == i);
                }
                let account = &self.accounts[i];
                if account.password_hash == *credential {
                    Ok(account.clone())
                } else {
                    Err(Error::InvalidCredentials)
                }
            }
        }
    }
}

} // verus!

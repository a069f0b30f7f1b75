use vstd::pervasive::VecAdditionalExecFns;
use vstd::prelude::*;

use crate::errors::Error;
use crate::identity::Identity;

verus! {

/// Mathematical model of one live session.
pub ghost struct SessionV {
    pub identity: Seq<u8>,
    pub username: Seq<char>,
}

/// A live binding from a caller identity to the username it
/// authenticated as; valid until logout.
#[derive(Debug)]
pub struct Session {
    pub identity: Identity,
    pub username: String,
}

impl View for Session {
    type V = SessionV;

    open spec fn view(&self) -> SessionV {
        SessionV { identity: self.identity@, username: self.username@ }
    }
}

/// The table is well formed when each identity holds at most one session.
pub open spec fn sessions_wf(sessions: Seq<SessionV>) -> bool {
    forall|i: int, j: int|
        #![trigger sessions[i].identity, sessions[j].identity]
        0 <= i < j < sessions.len() ==> sessions[i].identity != sessions[j].identity
}

/// Whether the given identity has an active session.
pub open spec fn has_session(sessions: Seq<SessionV>, id: Seq<u8>) -> bool {
    exists|i: int| 0 <= i < sessions.len() && sessions[i].identity == id
}

/// The index of the given identity's session (unique when the table is
/// well formed and the session exists).
pub open spec fn session_index(sessions: Seq<SessionV>, id: Seq<u8>) -> int {
    choose|i: int| 0 <= i < sessions.len() && sessions[i].identity == id
}

/// The username the given identity is authenticated as.
pub open spec fn session_user(sessions: Seq<SessionV>, id: Seq<u8>) -> Seq<char> {
    sessions[session_index(sessions, id)].username
}

/// What starting a session does: bind the identity to the username,
/// silently replacing any prior session for that identity.
pub open spec fn start_session_spec(
    sessions: Seq<SessionV>,
    id: Seq<u8>,
    name: Seq<char>,
) -> Seq<SessionV> {
    if has_session(sessions, id) {
        sessions.update(session_index(sessions, id), SessionV { identity: id, username: name })
    } else {
        sessions.push(SessionV { identity: id, username: name })
    }
}

/// What ending a session does: remove the identity's session, or report
/// `NotAuthenticated` and change nothing when there is none.
pub open spec fn end_session_spec(sessions: Seq<SessionV>, id: Seq<u8>) -> (
    Seq<SessionV>,
    Result<(), Error>,
) {
    if has_session(sessions, id) {
        (sessions.remove(session_index(sessions, id)), Ok(()))
    } else {
        (sessions, Err(Error::NotAuthenticated))
    }
}

/// What resolving an identity returns: the bound username exactly when a
/// session exists; the sole authorization primitive of the service.
pub open spec fn resolve_spec(sessions: Seq<SessionV>, id: Seq<u8>) -> Result<Seq<char>, Error> {
    if has_session(sessions, id) {
        Ok(session_user(sessions, id))
    } else {
        Err(Error::NotAuthenticated)
    }
}

/// The view of a vector of session records.
pub open spec fn sessions_view(entries: Seq<Session>) -> Seq<SessionV> {
    entries.map_values(|s: Session| s@)
}

/// The session table: live identity-to-username bindings.
pub struct SessionTable {
    pub entries: Vec<Session>,
}

impl View for SessionTable {
    type V = Seq<SessionV>;

    open spec fn view(&self) -> Seq<SessionV> {
        sessions_view(self.entries@)
    }
}

impl SessionTable {
    /// An empty session table.
    pub fn new() -> (r: Self)
        ensures
            r@ == Seq::<SessionV>::empty(),
            sessions_wf(r@),
    {
        let r = SessionTable { entries: Vec::new() };
        proof {
            assert(r@ =~= Seq::<SessionV>::empty());
        }
        r
    }

    /// The position of the given identity's session, if any.
    fn index_of_identity(&self, id: &Identity) -> (r: Option<usize>)
        ensures
            match r {
                Some(i) => i < self.entries.len() && self@[i as int].identity == id@,
                None => !has_session(self@, id@),
            },
    {
        let n = self.entries.len();
        let mut i: usize = 0;
        while i < n
            invariant
                n == self.entries.len(),
                i <= n,
                forall|k: int| 0 <= k < i ==> self@[k].identity != id@,
            decreases n - i,
        {
            if self.entries[i].identity.matches(id) {
                return Some(i);
            }
            i += 1;
        }
        None
    }

    /// Binds the identity to the username, unconditionally replacing any
    /// prior session for that identity; cannot fail.
    pub fn start_session(&mut self, identity: Identity, username: String)
        requires
            sessions_wf(old(self)@),
        ensures
            sessions_wf(final(self)@),
            final(self)@ == start_session_spec(old(self)@, identity@, username@),
    {
        let ghost prev = self@;
        let ghost sv = SessionV { identity: identity@, username: username@ };
        match self.index_of_identity(&identity) {
            Some(i) => {
                proof {
                    assert(has_session(prev, sv.identity));
                    let j = session_index(prev, sv.identity);
                    assert(0 <= j < prev.len() && prev[j].identity == sv.identity);
                    assert(j == i);
                }
                self.entries.set(i, Session { identity, username });
                proof {
                    assert(self@ =~= prev.update(i as int, sv));
                    assert forall|a: int, b: int|
                        0 <= a < b < self@.len() implies #[trigger] self@[a].identity
                        != #[trigger] self@[b].identity by {
                        assert(prev[a].identity != prev[b].identity);
                        assert(self@[a].identity == prev[a].identity);
                        assert(self@[b].identity == prev[b].identity);
                    }
                }
            }
            None => {
                self.entries.push(Session { identity, username });
                proof {
                    assert(self@ =~= prev.push(sv));
                    assert forall|a: int, b: int|
                        0 <= a < b < self@.len() implies #[trigger] self@[a].identity
                        != #[trigger] self@[b].identity by {
                        if b == self@.len() - 1 {
                            assert(!has_session(prev, sv.identity));
                            assert(prev[a].identity != sv.identity);
                        }
                    }
                }
            }
        }
    }

    /// Removes the identity's session; fails with `NotAuthenticated`,
    /// changing nothing, when there is none.
    pub fn end_session(&mut self, identity: &Identity) -> (r: Result<(), Error>)
        requires
            sessions_wf(old(self)@),
        ensures
            sessions_wf(final(self)@),
            final(self)@ == end_session_spec(old(self)@, identity@).0,
            r == end_session_spec(old(self)@, identity@).1,
    {
        let ghost prev = self@;
        match self.index_of_identity(identity) {
            None => Err(Error::NotAuthenticated),
            Some(i) => {
                proof {
                    assert(has_session(prev, identity@));
                    let j = session_index(prev, identity@);
                    assert(0 <= j < prev.len() && prev[j].identity == identity@);
                    assert(j == i);
                }
                self.entries.remove(i);
                proof {
                    assert(self@ =~= prev.remove(i as int));
                    assert forall|a: int, b: int|
                        0 <= a < b < self@.len() implies #[trigger] self@[a].identity
                        != #[trigger] self@[b].identity by {
                        let a0: int = if a < i { a } else { a + 1 };
                        let b0: int = if b < i { b } else { b + 1 };
                        assert(self@[a] == prev[a0]);
                        assert(self@[b] == prev[b0]);
                        assert(prev[a0].identity != prev[b0].identity);
                    }
                }
                Ok(())
            }
        }
    }

    /// Resolves the identity to its authenticated username; a pure
    /// lookup that fails with `NotAuthenticated` when no session exists.
    pub fn resolve(&self, identity: &Identity) -> (r: Result<String, Error>)
        requires
            sessions_wf(self@),
        ensures
            ({
                let v = resolve_spec(self@, identity@);
                match r {
                    Ok(name) => v == Ok::<Seq<char>, Error>(name@),
                    Err(e) => v == Err::<Seq<char>, Error>(e),
                }
            }),
    {
        match self.index_of_identity(identity) {
            None => Err(Error::NotAuthenticated),
            Some(i) => {
                proof {
                    assert(has_session(self@, identity@));
                    let j = session_index(self@, identity@);
                    assert(0 <= j < self@.len() && self@[j].identity == identity@);
                    assert(j == i);
                }
                Ok(self.entries[i].username.clone())
            }
        }
    }
}

} // verus!

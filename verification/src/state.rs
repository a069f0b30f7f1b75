use vstd::prelude::*;

use crate::errors::Error;
use crate::identity::Identity;
use crate::registry::has_user;
use crate::registry::register_spec;
use crate::registry::users_wf;
use crate::registry::verify_spec;
use crate::registry::LoginRequest;
use crate::registry::RegisterRequest;
use crate::registry::UserRegistry;
use crate::registry::UserV;
use crate::sessions::end_session_spec;
use crate::sessions::has_session;
use crate::sessions::resolve_spec;
use crate::sessions::sessions_wf;
use crate::sessions::start_session_spec;
use crate::sessions::SessionTable;
use crate::sessions::SessionV;
use crate::tasks::completed_owned_spec;
use crate::tasks::create_spec;
use crate::tasks::delete_spec;
use crate::tasks::owned_spec;
use crate::tasks::store_wf;
use crate::tasks::tasks_view;
use crate::tasks::toggle_completed_spec;
use crate::tasks::toggle_important_spec;
use crate::tasks::CreateTaskPayload;
use crate::tasks::Task;
use crate::tasks::TaskStore;
use crate::tasks::TaskStoreV;
use crate::tasks::TaskV;

verus! {

/// Mathematical model of the whole service state.
pub ghost struct StateV {
    pub users: Seq<UserV>,
    pub sessions: Seq<SessionV>,
    pub tasks: Seq<TaskV>,
    pub next_id: u64,
}

/// The service state is well formed when usernames are unique, each
/// identity holds at most one session, and task ids are strictly
/// ascending and below the id counter.
pub open spec fn st_wf(s: StateV) -> bool {
    &&& users_wf(s.users)
    &&& sessions_wf(s.sessions)
    &&& store_wf(TaskStoreV { tasks: s.tasks, next_id: s.next_id })
}

/// What `register` does to the whole state.
pub open spec fn st_register(
    s: StateV,
    username: Seq<char>,
    credential: Seq<char>,
    now: u64,
) -> (StateV, Result<(), Error>) {
    let (users2, r) = register_spec(s.users, username, credential, now);
    (StateV { users: users2, ..s }, r)
}

/// What `login` does: verify the credential against the registry and, on
/// success, bind the calling identity's session to the username
/// (silently replacing any prior session); on failure, report
/// `InvalidCredentials` and change nothing.
pub open spec fn st_login(
    s: StateV,
    caller: Seq<u8>,
    username: Seq<char>,
    credential: Seq<char>,
) -> (StateV, Result<(), Error>) {
    match verify_spec(s.users, username, credential) {
        Ok(_) => (
            StateV { sessions: start_session_spec(s.sessions, caller, username), ..s },
            Ok(()),
        ),
        Err(e) => (s, Err(e)),
    }
}

/// What `logout` does to the whole state.
pub open spec fn st_logout(s: StateV, caller: Seq<u8>) -> (StateV, Result<(), Error>) {
    let (sessions2, r) = end_session_spec(s.sessions, caller);
    (StateV { sessions: sessions2, ..s }, r)
}

/// What the authorization gate returns for a caller.
pub open spec fn st_resolve(s: StateV, caller: Seq<u8>) -> Result<Seq<char>, Error> {
    resolve_spec(s.sessions, caller)
}

/// What `create_task` does: refuse an unauthenticated caller, or append
/// a task owned by the caller under the next id and advance the counter.
pub open spec fn st_create_task(
    s: StateV,
    caller: Seq<u8>,
    title: Seq<char>,
    important: bool,
    due_date: u64,
    now: u64,
) -> (StateV, Result<u64, Error>) {
    if !has_session(s.sessions, caller) {
        (s, Err(Error::NotAuthenticated))
    } else {
        let (store2, id) = create_spec(
            TaskStoreV { tasks: s.tasks, next_id: s.next_id },
            caller,
            title,
            important,
            due_date,
            now,
        );
        (StateV { tasks: store2.tasks, next_id: store2.next_id, ..s }, Ok(id))
    }
}

/// What `get_my_tasks` returns: the caller's own tasks in ascending id
/// order, or `NotAuthenticated`.
pub open spec fn st_my_tasks(s: StateV, caller: Seq<u8>) -> Result<Seq<TaskV>, Error> {
    if !has_session(s.sessions, caller) {
        Err(Error::NotAuthenticated)
    } else {
        Ok(owned_spec(s.tasks, caller))
    }
}

/// What `get_completed_tasks` returns: the caller's completed tasks in
/// ascending id order, or `NotAuthenticated`.
pub open spec fn st_completed_tasks(s: StateV, caller: Seq<u8>) -> Result<Seq<TaskV>, Error> {
    if !has_session(s.sessions, caller) {
        Err(Error::NotAuthenticated)
    } else {
        Ok(completed_owned_spec(s.tasks, caller))
    }
}

/// What `toggle_task_status` does to the whole state.
pub open spec fn st_toggle_status(s: StateV, caller: Seq<u8>, title: Seq<char>) -> (
    StateV,
    Result<(), Error>,
) {
    if !has_session(s.sessions, caller) {
        (s, Err(Error::NotAuthenticated))
    } else {
        let (tasks2, r) = toggle_completed_spec(s.tasks, caller, title);
        (StateV { tasks: tasks2, ..s }, r)
    }
}

/// What `toggle_task_importance` does to the whole state.
pub open spec fn st_toggle_importance(s: StateV, caller: Seq<u8>, title: Seq<char>) -> (
    StateV,
    Result<(), Error>,
) {
    if !has_session(s.sessions, caller) {
        (s, Err(Error::NotAuthenticated))
    } else {
        let (tasks2, r) = toggle_important_spec(s.tasks, caller, title);
        (StateV { tasks: tasks2, ..s }, r)
    }
}

/// What `delete_task` does to the whole state.
pub open spec fn st_delete_task(s: StateV, caller: Seq<u8>, title: Seq<char>) -> (
    StateV,
    Result<(), Error>,
) {
    if !has_session(s.sessions, caller) {
        (s, Err(Error::NotAuthenticated))
    } else {
        let (tasks2, r) = delete_spec(s.tasks, caller, title);
        (StateV { tasks: tasks2, ..s }, r)
    }
}

/// The whole service state: the user registry, the session table and the
/// task store, owned together and passed to every request handler.
pub struct AppState {
    pub registry: UserRegistry,
    pub sessions: SessionTable,
    pub tasks: TaskStore,
}

impl View for AppState {
    type V = StateV;

    open spec fn view(&self) -> StateV {
        StateV {
            users: self.registry@,
            sessions: self.sessions@,
            tasks: self.tasks@.tasks,
            next_id: self.tasks@.next_id,
        }
    }
}

impl AppState {
    /// Whether the state satisfies all global invariants.
    pub open spec fn wf(&self) -> bool {
        st_wf(self@)
    }

    /// The empty state the service starts from: no accounts, no
    /// sessions, no tasks, and the id counter at zero.
    pub fn new() -> (r: Self)
        ensures
            r.wf(),
            r@.users == Seq::<UserV>::empty(),
            r@.sessions == Seq::<SessionV>::empty(),
            r@.tasks == Seq::<TaskV>::empty(),
            r@.next_id == 0,
    {
        AppState {
            registry: UserRegistry::new(),
            sessions: SessionTable::new(),
            tasks: TaskStore::new(),
        }
    }

    /// Registers a new account; does not log the caller in. Fails with
    /// `DuplicateUsername`, changing nothing, when the username exists.
    pub fn register(&mut self, request: RegisterRequest, now: u64) -> (r: Result<(), Error>)
        requires
            old(self).wf(),
        ensures
            final(self).wf(),
            final(self)@ == st_register(old(self)@, request.username@, request.password@, now).0,
            r == st_register(old(self)@, request.username@, request.password@, now).1,
    {
        self.registry.register(request, now)
    }

    /// Logs the caller in: on a correct credential, binds the calling
    /// identity's session to the username, replacing any prior session;
    /// otherwise fails with `InvalidCredentials` and changes nothing.
    pub fn login(&mut self, caller: Identity, request: LoginRequest) -> (r: Result<(), Error>)
        requires
            old(self).wf(),
        ensures
            final(self).wf(),
            final(self)@ == st_login(
                old(self)@,
                caller@,
                request.username@,
                request.password@,
            ).0,
            r == st_login(old(self)@, caller@, request.username@, request.password@).1,
    {
        match self.registry.verify(&request.username, &request.password) {
            Ok(_account) => {
                self.sessions.start_session(caller, request.username);
                Ok(())
            }
            Err(e) => Err(e),
        }
    }

    /// Ends the caller's session; fails with `NotAuthenticated`,
    /// changing nothing, when there is none.
    pub fn logout(&mut self, caller: &Identity) -> (r: Result<(), Error>)
        requires
            old(self).wf(),
        ensures
            final(self).wf(),
            final(self)@ == st_logout(old(self)@, caller@).0,
            r == st_logout(old(self)@, caller@).1,
    {
        self.sessions.end_session(caller)
    }

    /// The authorization gate consulted by every task operation:
    /// resolves the calling identity to its authenticated username, or
    /// fails with `NotAuthenticated`.
    pub fn ensure_authenticated(&self, caller: &Identity) -> (r: Result<String, Error>)
        requires
            self.wf(),
        ensures
            ({
                let v = st_resolve(self@, caller@);
                match r {
                    Ok(name) => v == Ok::<Seq<char>, Error>(name@),
                    Err(e) => v == Err::<Seq<char>, Error>(e),
                }
            }),
    {
        self.sessions.resolve(caller)
    }

    /// Creates a task owned by the caller: allocates the next id (the
    /// returned value), stores the task not yet completed and stamped
    /// with `now`. Fails with `NotAuthenticated` when no session exists.
    pub fn create_task(
        &mut self,
        caller: &Identity,
        payload: CreateTaskPayload,
        now: u64,
    ) -> (r: Result<u64, Error>)
        requires
            old(self).wf(),
            old(self)@.next_id < u64::MAX,
        ensures
            final(self).wf(),
            final(self)@ == st_create_task(
                old(self)@,
                caller@,
                payload.title@,
                payload.important,
                payload.due_date,
                now,
            ).0,
            r == st_create_task(
                old(self)@,
                caller@,
                payload.title@,
                payload.important,
                payload.due_date,
                now,
            ).1,
    {
        match self.sessions.resolve(caller) {
            Err(e) => Err(e),
            Ok(_username) => {
                let id = self.tasks.create(
                    caller.clone(),
                    payload.title,
                    payload.important,
                    payload.due_date,
                    now,
                );
                Ok(id)
            }
        }
    }

    /// The caller's own tasks, in ascending id order; never a task of
    /// another owner. Fails with `NotAuthenticated` when no session
    /// exists.
    pub fn get_my_tasks(&self, caller: &Identity) -> (r: Result<Vec<Task>, Error>)
        requires
            self.wf(),
        ensures
            ({
                let v = st_my_tasks(self@, caller@);
                match r {
                    Ok(list) => v == Ok::<Seq<TaskV>, Error>(tasks_view(list@)),
                    Err(e) => v == Err::<Seq<TaskV>, Error>(e),
                }
            }),
    {
        match self.sessions.resolve(caller) {
            Err(e) => Err(e),
            Ok(_username) => Ok(self.tasks.list_owned(caller)),
        }
    }

    /// The caller's completed tasks, in ascending id order. Fails with
    /// `NotAuthenticated` when no session exists.
    pub fn get_completed_tasks(&self, caller: &Identity) -> (r: Result<Vec<Task>, Error>)
        requires
            self.wf(),
        ensures
            ({
                let v = st_completed_tasks(self@, caller@);
                match r {
                    Ok(list) => v == Ok::<Seq<TaskV>, Error>(tasks_view(list@)),
                    Err(e) => v == Err::<Seq<TaskV>, Error>(e),
                }
            }),
    {
        match self.sessions.resolve(caller) {
            Err(e) => Err(e),
            Ok(_username) => Ok(self.tasks.list_completed_owned(caller)),
        }
    }

    /// Flips the `completed` flag of the caller's lowest-id task with
    /// the given title. Fails with `NotAuthenticated` without a session,
    /// and with `TaskNotFound` when no owned task carries the title.
    pub fn toggle_task_status(&mut self, caller: &Identity, title: &String) -> (r: Result<
        (),
        Error,
    >)
        requires
            old(self).wf(),
        ensures
            final(self).wf(),
            final(self)@ == st_toggle_status(old(self)@, caller@, title@).0,
            r == st_toggle_status(old(self)@, caller@, title@).1,
    {
        match self.sessions.resolve(caller) {
            Err(e) => Err(e),
            Ok(_username) => self.tasks.toggle_completed(caller, title),
        }
    }

    /// Flips the `important` flag of the caller's lowest-id task with
    /// the given title, symmetric to `toggle_task_status`.
    pub fn toggle_task_importance(&mut self, caller: &Identity, title: &String) -> (r: Result<
        (),
        Error,
    >)
        requires
            old(self).wf(),
        ensures
            final(self).wf(),
            final(self)@ == st_toggle_importance(old(self)@, caller@, title@).0,
            r == st_toggle_importance(old(self)@, caller@, title@).1,
    {
        match self.sessions.resolve(caller) {
            Err(e) => Err(e),
            Ok(_username) => self.tasks.toggle_important(caller, title),
        }
    }

    /// Deletes the caller's lowest-id task with the given title; the id
    /// is never reused. Fails with `NotAuthenticated` without a session,
    /// and with `TaskNotFound` when no owned task carries the title.
    pub fn delete_task(&mut self, caller: &Identity, title: &String) -> (r: Result<(), Error>)
        requires
            old(self).wf(),
        ensures
            final(self).wf(),
            final(self)@ == st_delete_task(old(self)@, caller@, title@).0,
            r == st_delete_task(old(self)@, caller@, title@).1,
    {
        match self.sessions.resolve(caller) {
            Err(e) => Err(e),
            Ok(_username) => self.tasks.delete(caller, title),
        }
    }

    /// The id the next created task will receive; exposed so a caller
    /// can test the counter against the machine limit before creating.
    pub fn next_task_id(&self) -> (r: u64)
        ensures
            r == self@.next_id,
    {
        self.tasks.next_id
    }
}

} // verus!

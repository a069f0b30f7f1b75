use vstd::prelude::*;

use crate::errors::Error;
use crate::registry::has_user;
use crate::registry::user_at;
use crate::registry::user_index;
use crate::registry::UserV;
use crate::sessions::has_session;
use crate::sessions::session_index;
use crate::sessions::session_user;
use crate::sessions::start_session_spec;
use crate::sessions::SessionV;
use crate::state::st_create_task;
use crate::state::st_login;
use crate::state::st_delete_task;
use crate::state::st_logout;
use crate::state::st_my_tasks;
use crate::state::st_register;
use crate::state::st_toggle_importance;
use crate::state::st_wf;
use crate::state::StateV;
use crate::tasks::first_match;
use crate::tasks::has_match;
use crate::tasks::lemma_first_match;
use crate::tasks::lemma_first_match_same;
use crate::tasks::owned_spec;
use crate::tasks::task_matches;
use crate::tasks::with_important;
use crate::tasks::TaskV;

verus! {

/// After a successful registration of a username, registering the same
/// username again fails with `DuplicateUsername`, changes nothing, and
/// the original account's credential is unchanged.
pub proof fn law_duplicate_registration_rejected(
    s: StateV,
    username: Seq<char>,
    credential1: Seq<char>,
    now1: u64,
    credential2: Seq<char>,
    now2: u64,
)
    requires
        st_wf(s),
        st_register(s, username, credential1, now1).1 is Ok,
    ensures
        ({
            let s1 = st_register(s, username, credential1, now1).0;
            let next = st_register(s1, username, credential2, now2);
            &&& next.1 == Err::<(), Error>(Error::DuplicateUsername)
            &&& next.0 == s1
            &&& user_at(s1.users, username).credential == credential1
        }),
{
    let s1 = st_register(s, username, credential1, now1).0;
    let uv = UserV { username, credential: credential1, created_at: now1 };
    assert(!has_user(s.users, username));
    assert(s1.users == s.users.push(uv));
    let last = s.users.len() as int;
    assert(s1.users[last].username == username);
    assert(has_user(s1.users, username));
    let j = user_index(s1.users, username);
    assert(0 <= j < s1.users.len() && s1.users[j].username == username);
    if j != last {
        assert(s1.users[j] == s.users[j]);
        assert(has_user(s.users, username));
        assert(false);
    }
    assert(user_at(s1.users, username) == uv);
}

/// Login with the correct credential of a registered user succeeds and
/// binds the calling identity's session to that username; login with a
/// wrong credential or an unknown username fails with
/// `InvalidCredentials` and leaves the whole state — any prior session
/// included — untouched.
pub proof fn law_login_binds_session(
    s: StateV,
    caller: Seq<u8>,
    username: Seq<char>,
    credential: Seq<char>,
)
    requires
        st_wf(s),
    ensures
        ({
            let next = st_login(s, caller, username, credential);
            let good = has_user(s.users, username) && user_at(
                s.users,
                username,
            ).credential == credential;
            &&& good ==> {
                &&& next.1 == Ok::<(), Error>(())
                &&& has_session(next.0.sessions, caller)
                &&& session_user(next.0.sessions, caller) == username
            }
            &&& !good ==> next.0 == s && next.1 == Err::<(), Error>(Error::InvalidCredentials)
        }),
{
    let good = has_user(s.users, username) && user_at(s.users, username).credential
        == credential;
    if good {
        let bound = start_session_spec(s.sessions, caller, username);
        let sv = SessionV { identity: caller, username };
        if has_session(s.sessions, caller) {
            let i = session_index(s.sessions, caller);
            assert(0 <= i < s.sessions.len() && s.sessions[i].identity == caller);
            assert(bound == s.sessions.update(i, sv));
            assert(bound[i].identity == caller);
            assert(has_session(bound, caller));
            let j = session_index(bound, caller);
            assert(0 <= j < bound.len() && bound[j].identity == caller);
            if j != i {
                assert(s.sessions[j].identity == caller);
                assert(s.sessions[j].identity != s.sessions[i].identity);
                assert(false);
            }
        } else {
            let last = s.sessions.len() as int;
            assert(bound == s.sessions.push(sv));
            assert(bound[last].identity == caller);
            assert(has_session(bound, caller));
            let j = session_index(bound, caller);
            assert(0 <= j < bound.len() && bound[j].identity == caller);
            if j != last {
                assert(s.sessions[j].identity == caller);
                assert(has_session(s.sessions, caller));
                assert(false);
            }
        }
    }
}

/// Logout without an active session fails with `NotAuthenticated` and
/// changes nothing; logout with one succeeds, after which the identity
/// has no session and a task query fails with `NotAuthenticated`.
pub proof fn law_logout_ends_authorization(s: StateV, caller: Seq<u8>)
    requires
        st_wf(s),
    ensures
        ({
            let next = st_logout(s, caller);
            &&& !has_session(s.sessions, caller) ==> next.1 == Err::<(), Error>(
                Error::NotAuthenticated,
            ) && next.0 == s
            &&& has_session(s.sessions, caller) ==> {
                &&& next.1 == Ok::<(), Error>(())
                &&& !has_session(next.0.sessions, caller)
                &&& st_my_tasks(next.0, caller) == Err::<Seq<TaskV>, Error>(
                    Error::NotAuthenticated,
                )
            }
        }),
{
    if has_session(s.sessions, caller) {
        let i = session_index(s.sessions, caller);
        assert(0 <= i < s.sessions.len() && s.sessions[i].identity == caller);
        let removed = s.sessions.remove(i);
        assert forall|k: int| 0 <= k < removed.len() implies (#[trigger] removed[k]).identity
            != caller by {
            let k0: int = if k < i { k } else { k + 1 };
            assert(removed[k] == s.sessions[k0]);
            assert(s.sessions[k0].identity != s.sessions[i].identity);
        }
        assert(!has_session(removed, caller));
    }
}

/// Ids returned by consecutive task creations of an authenticated
/// identity are strictly increasing, and each freshly allocated id is
/// strictly greater than every id already in the table — an id is never
/// reused, even after deletion.
pub proof fn law_created_ids_strictly_increase(
    s: StateV,
    caller: Seq<u8>,
    title1: Seq<char>,
    important1: bool,
    due1: u64,
    now1: u64,
    title2: Seq<char>,
    important2: bool,
    due2: u64,
    now2: u64,
)
    requires
        st_wf(s),
        has_session(s.sessions, caller),
        s.next_id + 1 < u64::MAX,
    ensures
        ({
            let first = st_create_task(s, caller, title1, important1, due1, now1);
            let second = st_create_task(first.0, caller, title2, important2, due2, now2);
            &&& first.1 == Ok::<u64, Error>(s.next_id)
            &&& second.1 == Ok::<u64, Error>((s.next_id + 1) as u64)
            &&& second.1->Ok_0 > first.1->Ok_0
            &&& forall|j: int|
                0 <= j < s.tasks.len() ==> (#[trigger] s.tasks[j].id) < first.1->Ok_0
        }),
{
    let first = st_create_task(s, caller, title1, important1, due1, now1);
    assert(first.0.sessions == s.sessions);
    assert(first.0.next_id == s.next_id + 1);
}

/// A task query never returns a task whose owner differs from the
/// calling identity.
pub proof fn law_my_tasks_owned_only(s: StateV, caller: Seq<u8>)
    ensures
        st_my_tasks(s, caller) is Ok ==> forall|k: int|
            0 <= k < st_my_tasks(s, caller)->Ok_0.len() ==> (#[trigger] st_my_tasks(
                s,
                caller,
            )->Ok_0[k]).owner == caller,
{
    if has_session(s.sessions, caller) {
        let owned = owned_spec(s.tasks, caller);
        assert forall|k: int| 0 <= k < owned.len() implies (#[trigger] owned[k]).owner
            == caller by {
            s.tasks.lemma_filter_pred(|t: TaskV| t.owner == caller, k);
        }
    }
}

/// Toggling the importance of a title twice restores the state: the
/// first toggle flips the flag of the lowest-id matching task, the
/// second flips it back, and nothing else ever changes.
pub proof fn law_toggle_importance_round_trip(s: StateV, caller: Seq<u8>, title: Seq<char>)
    requires
        st_wf(s),
        has_session(s.sessions, caller),
        has_match(s.tasks, caller, title),
    ensures
        ({
            let once = st_toggle_importance(s, caller, title);
            let twice = st_toggle_importance(once.0, caller, title);
            let m = first_match(s.tasks, caller, title);
            &&& once.1 == Ok::<(), Error>(())
            &&& twice.1 == Ok::<(), Error>(())
            &&& once.0.tasks == s.tasks.update(
                m,
                with_important(s.tasks[m], !s.tasks[m].important),
            )
            &&& twice.0 == s
        }),
{
    let m = first_match(s.tasks, caller, title);
    lemma_first_match(s.tasks, caller, title);
    assert(m < s.tasks.len());
    let t = s.tasks[m];
    let t1 = with_important(t, !t.important);
    let a1 = s.tasks.update(m, t1);
    assert forall|k: int|
        0 <= k < s.tasks.len() implies task_matches(#[trigger] s.tasks[k], caller, title)
        == task_matches(#[trigger] a1[k], caller, title) by {
        if k == m {
            assert(a1[k] == t1);
        }
    }
    lemma_first_match_same(s.tasks, a1, caller, title, 0);
    assert(first_match(a1, caller, title) == m);
    let t2 = with_important(t1, !t1.important);
    assert(t2 == t);
    let a2 = a1.update(m, t2);
    assert(a2 =~= s.tasks);
}

/// Deletion with a session and a matching title removes exactly the
/// lowest-id match and leaves every other task — including later tasks
/// with the same title — intact; with no match it fails with
/// `TaskNotFound`, and without a session with `NotAuthenticated`, both
/// changing nothing.
pub proof fn law_delete_removes_exactly_one(s: StateV, caller: Seq<u8>, title: Seq<char>)
    requires
        st_wf(s),
    ensures
        ({
            let next = st_delete_task(s, caller, title);
            let m = first_match(s.tasks, caller, title);
            &&& !has_session(s.sessions, caller) ==> next.0 == s && next.1 == Err::<(), Error>(
                Error::NotAuthenticated,
            )
            &&& has_session(s.sessions, caller) && !has_match(s.tasks, caller, title)
                ==> next.0 == s && next.1 == Err::<(), Error>(Error::TaskNotFound)
            &&& has_session(s.sessions, caller) && has_match(s.tasks, caller, title) ==> {
                &&& next.1 == Ok::<(), Error>(())
                &&& task_matches(s.tasks[m], caller, title)
                &&& next.0.tasks.len() == s.tasks.len() - 1
                &&& forall|k: int|
                    0 <= k < m ==> (#[trigger] next.0.tasks[k]) == s.tasks[k] && !task_matches(
                        s.tasks[k],
                        caller,
                        title,
                    )
                &&& forall|k: int|
                    m < k < s.tasks.len() ==> (#[trigger] next.0.tasks[k - 1]) == s.tasks[k]
            }
        }),
{
    let m = first_match(s.tasks, caller, title);
    lemma_first_match(s.tasks, caller, title);
    if has_session(s.sessions, caller) {
        if has_match(s.tasks, caller, title) {
            assert(m < s.tasks.len());
        } else {
            if m < s.tasks.len() {
                assert(task_matches(s.tasks[m], caller, title));
                assert(false);
            }
        }
    }
}

} // verus!

use todo_app_backend::AppState;
use todo_app_backend::CreateTaskPayload;
use todo_app_backend::Error;
use todo_app_backend::Identity;
use todo_app_backend::LoginRequest;
use todo_app_backend::RegisterRequest;

fn ident(bytes: &[u8]) -> Identity {
    Identity::from_bytes(bytes.to_vec())
}

fn register(st: &mut AppState, username: &str, password: &str) -> Result<(), Error> {
    st.register(
        RegisterRequest { username: username.to_string(), password: password.to_string() },
        100,
    )
}

fn login(st: &mut AppState, who: &Identity, username: &str, password: &str) -> Result<(), Error> {
    st.login(
        who.clone(),
        LoginRequest { username: username.to_string(), password: password.to_string() },
    )
}

fn create(st: &mut AppState, who: &Identity, title: &str, important: bool) -> Result<u64, Error> {
    assert!(st.next_task_id() < u64::MAX);
    st.create_task(
        who,
        CreateTaskPayload { title: title.to_string(), important, due_date: 1000 },
        200,
    )
}

#[test]
fn duplicate_username_rejected_and_credential_kept() {
    let mut st = AppState::new();
    assert_eq!(register(&mut st, "alice", "pw1"), Ok(()));
    assert_eq!(register(&mut st, "alice", "other"), Err(Error::DuplicateUsername));
    // The original account's credential is unchanged: the old one still
    // logs in, the would-be new one does not.
    let a = ident(&[1]);
    assert_eq!(login(&mut st, &a, "alice", "other"), Err(Error::InvalidCredentials));
    assert_eq!(login(&mut st, &a, "alice", "pw1"), Ok(()));
}

#[test]
fn login_binds_session_and_bad_credentials_leave_it_untouched() {
    let mut st = AppState::new();
    assert_eq!(register(&mut st, "alice", "pw1"), Ok(()));
    assert_eq!(register(&mut st, "bob", "pw2"), Ok(()));
    let a = ident(&[1]);
    assert_eq!(login(&mut st, &a, "alice", "wrong"), Err(Error::InvalidCredentials));
    assert!(matches!(st.get_my_tasks(&a), Err(Error::NotAuthenticated)));
    assert_eq!(login(&mut st, &a, "nobody", "pw1"), Err(Error::InvalidCredentials));
    assert_eq!(login(&mut st, &a, "alice", "pw1"), Ok(()));
    assert_eq!(st.ensure_authenticated(&a), Ok("alice".to_string()));
    // A failed login afterwards leaves the existing session untouched.
    assert_eq!(login(&mut st, &a, "bob", "wrong"), Err(Error::InvalidCredentials));
    assert_eq!(st.ensure_authenticated(&a), Ok("alice".to_string()));
    // A later successful login replaces the session.
    assert_eq!(login(&mut st, &a, "bob", "pw2"), Ok(()));
    assert_eq!(st.ensure_authenticated(&a), Ok("bob".to_string()));
}

#[test]
fn logout_requires_and_ends_a_session() {
    let mut st = AppState::new();
    assert_eq!(register(&mut st, "alice", "pw1"), Ok(()));
    let a = ident(&[1]);
    assert_eq!(st.logout(&a), Err(Error::NotAuthenticated));
    assert_eq!(login(&mut st, &a, "alice", "pw1"), Ok(()));
    assert_eq!(st.logout(&a), Ok(()));
    assert!(matches!(st.get_my_tasks(&a), Err(Error::NotAuthenticated)));
    assert_eq!(st.logout(&a), Err(Error::NotAuthenticated));
}

#[test]
fn created_ids_increase_and_are_never_reused() {
    let mut st = AppState::new();
    assert_eq!(register(&mut st, "alice", "pw1"), Ok(()));
    let a = ident(&[1]);
    assert_eq!(login(&mut st, &a, "alice", "pw1"), Ok(()));
    assert_eq!(create(&mut st, &a, "one", false), Ok(0));
    assert_eq!(create(&mut st, &a, "two", false), Ok(1));
    assert_eq!(create(&mut st, &a, "three", false), Ok(2));
    assert_eq!(st.delete_task(&a, &"three".to_string()), Ok(()));
    // The deleted id is not handed out again.
    assert_eq!(create(&mut st, &a, "four", false), Ok(3));
}

#[test]
fn tasks_are_visible_only_to_their_owner() {
    let mut st = AppState::new();
    assert_eq!(register(&mut st, "alice", "pw1"), Ok(()));
    assert_eq!(register(&mut st, "bob", "pw2"), Ok(()));
    let a = ident(&[1]);
    let b = ident(&[2]);
    assert_eq!(login(&mut st, &a, "alice", "pw1"), Ok(()));
    assert_eq!(login(&mut st, &b, "bob", "pw2"), Ok(()));
    assert_eq!(create(&mut st, &a, "a1", false), Ok(0));
    assert_eq!(create(&mut st, &b, "b1", false), Ok(1));
    assert_eq!(create(&mut st, &a, "a2", false), Ok(2));
    let mine = st.get_my_tasks(&a).unwrap();
    assert_eq!(mine.len(), 2);
    assert_eq!(mine[0].id, 0);
    assert_eq!(mine[0].title, "a1");
    assert_eq!(mine[1].id, 2);
    assert_eq!(mine[1].title, "a2");
    let theirs = st.get_my_tasks(&b).unwrap();
    assert_eq!(theirs.len(), 1);
    assert_eq!(theirs[0].id, 1);
    assert_eq!(theirs[0].title, "b1");
    for t in mine {
        assert!(t.owner.matches(&a));
    }
}

#[test]
fn toggle_importance_round_trip() {
    let mut st = AppState::new();
    assert_eq!(register(&mut st, "alice", "pw1"), Ok(()));
    let a = ident(&[1]);
    assert_eq!(login(&mut st, &a, "alice", "pw1"), Ok(()));
    assert_eq!(create(&mut st, &a, "T", false), Ok(0));
    assert_eq!(st.toggle_task_importance(&a, &"T".to_string()), Ok(()));
    let tasks = st.get_my_tasks(&a).unwrap();
    assert_eq!(tasks.len(), 1);
    assert!(tasks[0].important);
    assert_eq!(st.toggle_task_importance(&a, &"T".to_string()), Ok(()));
    let tasks = st.get_my_tasks(&a).unwrap();
    assert!(!tasks[0].important);
}

#[test]
fn toggle_status_flips_completed_and_feeds_completed_query() {
    let mut st = AppState::new();
    assert_eq!(register(&mut st, "alice", "pw1"), Ok(()));
    let a = ident(&[1]);
    assert_eq!(login(&mut st, &a, "alice", "pw1"), Ok(()));
    assert_eq!(create(&mut st, &a, "T", false), Ok(0));
    assert_eq!(create(&mut st, &a, "U", false), Ok(1));
    assert_eq!(st.get_completed_tasks(&a).unwrap().len(), 0);
    assert_eq!(st.toggle_task_status(&a, &"U".to_string()), Ok(()));
    let done = st.get_completed_tasks(&a).unwrap();
    assert_eq!(done.len(), 1);
    assert_eq!(done[0].id, 1);
    assert!(done[0].completed);
    assert_eq!(st.toggle_task_status(&a, &"missing".to_string()), Err(Error::TaskNotFound));
}

#[test]
fn delete_removes_lowest_id_match_only() {
    let mut st = AppState::new();
    assert_eq!(register(&mut st, "alice", "pw1"), Ok(()));
    let a = ident(&[1]);
    assert_eq!(login(&mut st, &a, "alice", "pw1"), Ok(()));
    assert_eq!(create(&mut st, &a, "dup", false), Ok(0));
    assert_eq!(create(&mut st, &a, "dup", true), Ok(1));
    assert_eq!(create(&mut st, &a, "other", false), Ok(2));
    assert_eq!(st.delete_task(&a, &"dup".to_string()), Ok(()));
    let tasks = st.get_my_tasks(&a).unwrap();
    assert_eq!(tasks.len(), 2);
    // The lowest-id match (id 0) is gone; the later duplicate survives.
    assert_eq!(tasks[0].id, 1);
    assert_eq!(tasks[0].title, "dup");
    assert!(tasks[0].important);
    assert_eq!(tasks[1].id, 2);
    assert_eq!(st.delete_task(&a, &"missing".to_string()), Err(Error::TaskNotFound));
}

#[test]
fn mutations_require_ownership() {
    let mut st = AppState::new();
    assert_eq!(register(&mut st, "alice", "pw1"), Ok(()));
    assert_eq!(register(&mut st, "bob", "pw2"), Ok(()));
    let a = ident(&[1]);
    let b = ident(&[2]);
    assert_eq!(login(&mut st, &a, "alice", "pw1"), Ok(()));
    assert_eq!(login(&mut st, &b, "bob", "pw2"), Ok(()));
    assert_eq!(create(&mut st, &a, "secret", false), Ok(0));
    // Another authenticated identity cannot toggle or delete it.
    assert_eq!(st.toggle_task_status(&b, &"secret".to_string()), Err(Error::TaskNotFound));
    assert_eq!(st.toggle_task_importance(&b, &"secret".to_string()), Err(Error::TaskNotFound));
    assert_eq!(st.delete_task(&b, &"secret".to_string()), Err(Error::TaskNotFound));
    assert_eq!(st.get_my_tasks(&a).unwrap().len(), 1);
}

#[test]
fn unauthenticated_task_operations_fail() {
    let mut st = AppState::new();
    let a = ident(&[1]);
    assert_eq!(
        st.create_task(
            &a,
            CreateTaskPayload { title: "T".to_string(), important: false, due_date: 0 },
            0,
        ),
        Err(Error::NotAuthenticated)
    );
    assert!(matches!(st.get_my_tasks(&a), Err(Error::NotAuthenticated)));
    assert!(matches!(st.get_completed_tasks(&a), Err(Error::NotAuthenticated)));
    assert_eq!(st.toggle_task_status(&a, &"T".to_string()), Err(Error::NotAuthenticated));
    assert_eq!(st.toggle_task_importance(&a, &"T".to_string()), Err(Error::NotAuthenticated));
    assert_eq!(st.delete_task(&a, &"T".to_string()), Err(Error::NotAuthenticated));
}

#[test]
fn error_messages_match_the_boundary_strings() {
    assert_eq!(Error::DuplicateUsername.message(), "Username already exists");
    assert_eq!(Error::InvalidCredentials.message(), "Invalid username or password");
    assert_eq!(Error::NotAuthenticated.message(), "User not authenticated");
    assert_eq!(Error::TaskNotFound.message(), "Task not found");
}

#[test]
fn end_to_end_scenario() {
    let mut st = AppState::new();
    assert_eq!(register(&mut st, "alice", "pw1"), Ok(()));
    let a = ident(&[0xAA]);
    assert_eq!(login(&mut st, &a, "alice", "pw1"), Ok(()));
    assert_eq!(
        st.create_task(
            &a,
            CreateTaskPayload { title: "Buy milk".to_string(), important: false, due_date: 1000 },
            500,
        ),
        Ok(0)
    );
    let tasks = st.get_my_tasks(&a).unwrap();
    assert_eq!(tasks.len(), 1);
    assert_eq!(tasks[0].id, 0);
    assert_eq!(tasks[0].title, "Buy milk");
    assert!(!tasks[0].completed);
    assert!(!tasks[0].important);
    assert_eq!(tasks[0].due_date, 1000);
    let b = ident(&[0xBB]);
    assert!(matches!(st.get_my_tasks(&b), Err(Error::NotAuthenticated)));
}

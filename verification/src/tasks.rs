use vstd::pervasive::VecAdditionalExecFns;
use vstd::prelude::*;

use crate::errors::Error;
use crate::identity::Identity;

verus! {

/// Mathematical model of one task record.
pub ghost struct TaskV {
    pub id: u64,
    pub title: Seq<char>,
    pub completed: bool,
    pub important: bool,
    pub created_at: u64,
    pub due_date: u64,
    pub owner: Seq<u8>,
}

/// A task record. The id is unique for the process lifetime and never
/// reused; the owner is the identity that created the task and never
/// changes; the title is the sole disambiguator callers use for toggle
/// and delete.
#[derive(Debug)]
pub struct Task {
    pub id: u64,
    pub title: String,
    pub completed: bool,
    pub important: bool,
    pub created_at: u64,
    pub due_date: u64,
    pub owner: Identity,
}

impl View for Task {
    type V = TaskV;

    open spec fn view(&self) -> TaskV {
        TaskV {
            id: self.id,
            title: self.title@,
            completed: self.completed,
            important: self.important,
            created_at: self.created_at,
            due_date: self.due_date,
            owner: self.owner@,
        }
    }
}

impl Clone for Task {
    /// A cloned task carries the same fields.
    fn clone(&self) -> (r: Self)
        ensures
            r@ == self@,
    {
        Task {
            id: self.id,
            title: self.title.clone(),
            completed: self.completed,
            important: self.important,
            created_at: self.created_at,
            due_date: self.due_date,
            owner: self.owner.clone(),
        }
    }
}

/// The inputs of a task-creation request.
#[derive(Debug)]
pub struct CreateTaskPayload {
    pub title: String,
    pub important: bool,
    pub due_date: u64,
}

/// Mathematical model of the task store: the task table in ascending id
/// order, and the next id to hand out.
pub ghost struct TaskStoreV {
    pub tasks: Seq<TaskV>,
    pub next_id: u64,
}

/// The store is well formed when task ids are strictly ascending along
/// the table and every id is below the counter (so ids are unique and
/// never reused, even after deletion).
pub open spec fn store_wf(s: TaskStoreV) -> bool {
    &&& forall|i: int, j: int|
        #![trigger s.tasks[i].id, s.tasks[j].id]
        0 <= i < j < s.tasks.len() ==> s.tasks[i].id < s.tasks[j].id
    &&& forall|i: int| 0 <= i < s.tasks.len() ==> (#[trigger] s.tasks[i].id) < s.next_id
}

/// Whether a task is owned by `owner` and carries exactly `title`.
pub open spec fn task_matches(t: TaskV, owner: Seq<u8>, title: Seq<char>) -> bool {
    t.owner == owner && t.title == title
}

/// The first index at or after `i` whose task matches, or the length of
/// the table when none does. Because the table is in ascending id order,
/// the first match is the match with the lowest id.
pub open spec fn first_match_from(
    tasks: Seq<TaskV>,
    owner: Seq<u8>,
    title: Seq<char>,
    i: int,
) -> int
    decreases tasks.len() - i,
{
    if i < 0 || i >= tasks.len() {
        tasks.len() as int
    } else if task_matches(tasks[i], owner, title) {
        i
    } else {
        first_match_from(tasks, owner, title, i + 1)
    }
}

/// The index of the lowest-id task owned by `owner` with title `title`,
/// or the length of the table when none matches.
pub open spec fn first_match(tasks: Seq<TaskV>, owner: Seq<u8>, title: Seq<char>) -> int {
    first_match_from(tasks, owner, title, 0)
}

/// Whether some task is owned by `owner` and carries exactly `title`.
pub open spec fn has_match(tasks: Seq<TaskV>, owner: Seq<u8>, title: Seq<char>) -> bool {
    exists|k: int| 0 <= k < tasks.len() && task_matches(tasks[k], owner, title)
}

pub proof fn lemma_first_match_from(tasks: Seq<TaskV>, owner: Seq<u8>, title: Seq<char>, i: int)
    requires
        0 <= i <= tasks.len(),
    ensures
        ({
            let m = first_match_from(tasks, owner, title, i);
            &&& i <= m <= tasks.len()
            &&& m < tasks.len() ==> task_matches(tasks[m], owner, title)
            &&& forall|k: int|
                i <= k < m ==> !(#[trigger] task_matches(tasks[k], owner, title))
        }),
    decreases tasks.len() - i,
{
    if i < tasks.len() && !task_matches(tasks[i], owner, title) {
        lemma_first_match_from(tasks, owner, title, i + 1);
    }
}

/// The facts every caller needs of `first_match`: it is the position of
/// a matching task when one exists, no earlier position matches, and it
/// is the table length exactly when nothing matches.
pub proof fn lemma_first_match(tasks: Seq<TaskV>, owner: Seq<u8>, title: Seq<char>)
    ensures
        ({
            let m = first_match(tasks, owner, title);
            &&& 0 <= m <= tasks.len()
            &&& m < tasks.len() ==> task_matches(tasks[m], owner, title)
            &&& forall|k: int|
                0 <= k < m ==> !(#[trigger] task_matches(tasks[k], owner, title))
        }),
{
    lemma_first_match_from(tasks, owner, title, 0);
}

/// Two tables whose entries match at exactly the same positions have
/// the same first match.
pub proof fn lemma_first_match_same(
    a: Seq<TaskV>,
    b: Seq<TaskV>,
    owner: Seq<u8>,
    title: Seq<char>,
    i: int,
)
    requires
        a.len() == b.len(),
        forall|k: int|
            0 <= k < a.len() ==> task_matches(#[trigger] a[k], owner, title) == task_matches(
                #[trigger] b[k],
                owner,
                title,
            ),
        0 <= i <= a.len(),
    ensures
        first_match_from(a, owner, title, i) == first_match_from(b, owner, title, i),
    decreases a.len() - i,
{
    if i < a.len() && !task_matches(a[i], owner, title) {
        lemma_first_match_same(a, b, owner, title, i + 1);
    }
}

/// The task with its `completed` flag set to `c`.
pub open spec fn with_completed(t: TaskV, c: bool) -> TaskV {
    TaskV { completed: c, ..t }
}

/// The task with its `important` flag set to `b`.
pub open spec fn with_important(t: TaskV, b: bool) -> TaskV {
    TaskV { important: b, ..t }
}

/// What creation does: append a task carrying the current counter as its
/// id, `completed` false, and the caller as owner; then advance the
/// counter by exactly one. The returned id is the old counter value.
pub open spec fn create_spec(
    s: TaskStoreV,
    owner: Seq<u8>,
    title: Seq<char>,
    important: bool,
    due_date: u64,
    now: u64,
) -> (TaskStoreV, u64) {
    (
        TaskStoreV {
            tasks: s.tasks.push(
                TaskV {
                    id: s.next_id,
                    title,
                    completed: false,
                    important,
                    created_at: now,
                    due_date,
                    owner,
                },
            ),
            next_id: (s.next_id + 1) as u64,
        },
        s.next_id,
    )
}

/// The tasks owned by `owner`, in ascending id order.
pub open spec fn owned_spec(tasks: Seq<TaskV>, owner: Seq<u8>) -> Seq<TaskV> {
    tasks.filter(|t: TaskV| t.owner == owner)
}

/// The completed tasks owned by `owner`, in ascending id order.
pub open spec fn completed_owned_spec(tasks: Seq<TaskV>, owner: Seq<u8>) -> Seq<TaskV> {
    tasks.filter(|t: TaskV| t.owner == owner && t.completed)
}

/// What toggling the `completed` flag does: flip it on the lowest-id
/// owned task with the given title, or report `TaskNotFound` and change
/// nothing when no owned task carries that title.
pub open spec fn toggle_completed_spec(tasks: Seq<TaskV>, owner: Seq<u8>, title: Seq<char>) -> (
    Seq<TaskV>,
    Result<(), Error>,
) {
    let m = first_match(tasks, owner, title);
    if m == tasks.len() {
        (tasks, Err(Error::TaskNotFound))
    } else {
        (tasks.update(m, with_completed(tasks[m], !tasks[m].completed)), Ok(()))
    }
}

/// What toggling the `important` flag does, symmetric to `completed`.
pub open spec fn toggle_important_spec(tasks: Seq<TaskV>, owner: Seq<u8>, title: Seq<char>) -> (
    Seq<TaskV>,
    Result<(), Error>,
) {
    let m = first_match(tasks, owner, title);
    if m == tasks.len() {
        (tasks, Err(Error::TaskNotFound))
    } else {
        (tasks.update(m, with_important(tasks[m], !tasks[m].important)), Ok(()))
    }
}

/// What deletion does: remove the lowest-id owned task with the given
/// title permanently (its id is never handed out again), or report
/// `TaskNotFound` and change nothing.
pub open spec fn delete_spec(tasks: Seq<TaskV>, owner: Seq<u8>, title: Seq<char>) -> (
    Seq<TaskV>,
    Result<(), Error>,
) {
    let m = first_match(tasks, owner, title);
    if m == tasks.len() {
        (tasks, Err(Error::TaskNotFound))
    } else {
        (tasks.remove(m), Ok(()))
    }
}

/// The view of a vector of task records.
pub open spec fn tasks_view(tasks: Seq<Task>) -> Seq<TaskV> {
    tasks.map_values(|t: Task| t@)
}

/// The task store: the task table plus the monotonic id counter, which
/// starts at zero and is never decremented or reset.
pub struct TaskStore {
    pub tasks: Vec<Task>,
    pub next_id: u64,
}

impl View for TaskStore {
    type V = TaskStoreV;

    open spec fn view(&self) -> TaskStoreV {
        TaskStoreV { tasks: tasks_view(self.tasks@), next_id: self.next_id }
    }
}

impl TaskStore {
    /// An empty store with the id counter at zero.
    pub fn new() -> (r: Self)
        ensures
            r@.tasks == Seq::<TaskV>::empty(),
            r@.next_id == 0,
            store_wf(r@),
    {
        let r = TaskStore { tasks: Vec::new(), next_id: 0 };
        proof {
            assert(r@.tasks =~= Seq::<TaskV>::empty());
        }
        r
    }

    /// The position of the lowest-id task owned by `owner` with the
    /// given title, if any; the table is in ascending id order.
    fn index_of_match(&self, owner: &Identity, title: &String) -> (r: Option<usize>)
        ensures
            ({
                let m = first_match(self@.tasks, owner@, title@);
                match r {
                    Some(i) => i as int == m && i < self.tasks.len(),
                    None => m == self@.tasks.len(),
                }
            }),
    {
        let ghost ts = self@.tasks;
        let n = self.tasks.len();
        let mut i: usize = 0;
        while i < n
            invariant
                n == self.tasks.len(),
                ts == self@.tasks,
                i <= n,
                forall|k: int| 0 <= k < i ==> !(#[trigger] task_matches(ts[k], owner@, title@)),
            decreases n - i,
        {
            if self.tasks[i].owner.matches(owner) && self.tasks[i].title == *title {
                proof {
                    assert(task_matches(ts[i as int], owner@, title@));
                    lemma_first_match(ts, owner@, title@);
                }
                return Some(i);
            }
            i += 1;
        }
        proof {
            lemma_first_match(ts, owner@, title@);
        }
        None
    }

    /// Allocates the next id, appends the new task (not yet completed,
    /// stamped with `now`, owned by `owner`) and returns the id.
    pub fn create(
        &mut self,
        owner: Identity,
        title: String,
        important: bool,
        due_date: u64,
        now: u64,
    ) -> (id: u64)
        requires
            store_wf(old(self)@),
            old(self)@.next_id < u64::MAX,
        ensures
            store_wf(final(self)@),
            final(self)@ == create_spec(old(self)@, owner@, title@, important, due_date, now).0,
            id == create_spec(old(self)@, owner@, title@, important, due_date, now).1,
    {
        let ghost prev = self@;
        let id = self.next_id;
        self.next_id = id + 1;
        let task = Task {
            id,
            title,
            completed: false,
            important,
            created_at: now,
            due_date,
            owner,
        };
        let ghost tv = task@;
        self.tasks.push(task);
        proof {
            assert(self@.tasks =~= prev.tasks.push(tv));
            assert forall|a: int, b: int|
                0 <= a < b < self@.tasks.len() implies #[trigger] self@.tasks[a].id
                < #[trigger] self@.tasks[b].id by {
                if b == self@.tasks.len() - 1 {
                    assert(prev.tasks[a].id < prev.next_id);
                }
            }
        }
        id
    }

    /// All tasks owned by `owner`, cloned, in ascending id order.
    pub fn list_owned(&self, owner: &Identity) -> (r: Vec<Task>)
        ensures
            tasks_view(r@) == owned_spec(self@.tasks, owner@),
    {
        let ghost ts = self@.tasks;
        let n = self.tasks.len();
        let mut result: Vec<Task> = Vec::new();
        let mut i: usize = 0;
        while i < n
            invariant
                n == self.tasks.len(),
                ts == self@.tasks,
                i <= n,
                tasks_view(result@) == owned_spec(ts.subrange(0, i as int), owner@),
            decreases n - i,
        {
            let ghost prefix = ts.subrange(0, i as int);
            let ghost prefix1 = ts.subrange(0, i + 1 as int);
            let ghost rv = tasks_view(result@);
            proof {
                assert(prefix1 =~= prefix.push(ts[i as int]));
                prefix.lemma_filter_push(ts[i as int], |t: TaskV| t.owner == owner@);
            }
            if self.tasks[i].owner.matches(owner) {
                result.push(self.tasks[i].clone());
                proof {
                    assert(tasks_view(result@) =~= rv.push(ts[i as int]));
                }
            }
            i += 1;
        }
        proof {
            assert(ts.subrange(0, n as int) =~= ts);
        }
        result
    }

    /// The completed tasks owned by `owner`, cloned, in ascending id
    /// order.
    pub fn list_completed_owned(&self, owner: &Identity) -> (r: Vec<Task>)
        ensures
            tasks_view(r@) == completed_owned_spec(self@.tasks, owner@),
    {
        let ghost ts = self@.tasks;
        let n = self.tasks.len();
        let mut result: Vec<Task> = Vec::new();
        let mut i: usize = 0;
        while i < n
            invariant
                n == self.tasks.len(),
                ts == self@.tasks,
                i <= n,
                tasks_view(result@) == completed_owned_spec(ts.subrange(0, i as int), owner@),
            decreases n - i,
        {
            let ghost prefix = ts.subrange(0, i as int);
            let ghost prefix1 = ts.subrange(0, i + 1 as int);
            let ghost rv = tasks_view(result@);
            proof {
                assert(prefix1 =~= prefix.push(ts[i as int]));
                prefix.lemma_filter_push(
                    ts[i as int],
                    |t: TaskV| t.owner == owner@ && t.completed,
                );
            }
            if self.tasks[i].owner.matches(owner) && self.tasks[i].completed {
                result.push(self.tasks[i].clone());
                proof {
                    assert(tasks_view(result@) =~= rv.push(ts[i as int]));
                }
            }
            i += 1;
        }
        proof {
            assert(ts.subrange(0, n as int) =~= ts);
        }
        result
    }

    /// Flips the `completed` flag of the lowest-id owned task with the
    /// given title; fails with `TaskNotFound`, changing nothing, when no
    /// owned task carries that title.
    pub fn toggle_completed(&mut self, owner: &Identity, title: &String) -> (r: Result<
        (),
        Error,
    >)
        requires
            store_wf(old(self)@),
        ensures
            store_wf(final(self)@),
            final(self)@.tasks == toggle_completed_spec(old(self)@.tasks, owner@, title@).0,
            final(self)@.next_id == old(self)@.next_id,
            r == toggle_completed_spec(old(self)@.tasks, owner@, title@).1,
    {
        let ghost prev = self@;
        match self.index_of_match(owner, title) {
            None => Err(Error::TaskNotFound),
            Some(i) => {
                let flipped = !self.tasks[i].completed;
                let current = &self.tasks[i];
                let updated = Task {
                    id: current.id,
                    title: current.title.clone(),
                    completed: flipped,
                    important: current.important,
                    created_at: current.created_at,
                    due_date: current.due_date,
                    owner: current.owner.clone(),
                };
                let ghost uv = updated@;
                self.tasks.set(i, updated);
                proof {
                    assert(uv == with_completed(prev.tasks[i as int], !prev.tasks[i as int].completed));
                    assert(self@.tasks =~= prev.tasks.update(i as int, uv));
                    lemma_preserves_wf_update(prev, i as int, uv);
                }
                Ok(())
            }
        }
    }

    /// Flips the `important` flag of the lowest-id owned task with the
    /// given title, symmetric to `toggle_completed`.
    pub fn toggle_important(&mut self, owner: &Identity, title: &String) -> (r: Result<
        (),
        Error,
    >)
        requires
            store_wf(old(self)@),
        ensures
            store_wf(final(self)@),
            final(self)@.tasks == toggle_important_spec(old(self)@.tasks, owner@, title@).0,
            final(self)@.next_id == old(self)@.next_id,
            r == toggle_important_spec(old(self)@.tasks, owner@, title@).1,
    {
        let ghost prev = self@;
        match self.index_of_match(owner, title) {
            None => Err(Error::TaskNotFound),
            Some(i) => {
                let flipped = !self.tasks[i].important;
                let current = &self.tasks[i];
                let updated = Task {
                    id: current.id,
                    title: current.title.clone(),
                    completed: current.completed,
                    important: flipped,
                    created_at: current.created_at,
                    due_date: current.due_date,
                    owner: current.owner.clone(),
                };
                let ghost uv = updated@;
                self.tasks.set(i, updated);
                proof {
                    assert(uv == with_important(prev.tasks[i as int], !prev.tasks[i as int].important));
                    assert(self@.tasks =~= prev.tasks.update(i as int, uv));
                    lemma_preserves_wf_update(prev, i as int, uv);
                }
                Ok(())
            }
        }
    }

    /// Removes the lowest-id owned task with the given title; its id is
    /// never reused. Fails with `TaskNotFound`, changing nothing, when
    /// no owned task carries that title.
    pub fn delete(&mut self, owner: &Identity, title: &String) -> (r: Result<(), Error>)
        requires
            store_wf(old(self)@),
        ensures
            store_wf(final(self)@),
            final(self)@.tasks == delete_spec(old(self)@.tasks, owner@, title@).0,
            final(self)@.next_id == old(self)@.next_id,
            r == delete_spec(old(self)@.tasks, owner@, title@).1,
    {
        let ghost prev = self@;
        match self.index_of_match(owner, title) {
            None => Err(Error::TaskNotFound),
            Some(i) => {
                self.tasks.remove(i);
                proof {
                    assert(self@.tasks =~= prev.tasks.remove(i as int));
                    assert forall|a: int, b: int|
                        0 <= a < b < self@.tasks.len() implies #[trigger] self@.tasks[a].id
                        < #[trigger] self@.tasks[b].id by {
                        let a0: int = if a < i { a } else { a + 1 };
                        let b0: int = if b < i { b } else { b + 1 };
                        assert(self@.tasks[a] == prev.tasks[a0]);
                        assert(self@.tasks[b] == prev.tasks[b0]);
                        assert(prev.tasks[a0].id < prev.tasks[b0].id);
                    }
                    assert forall|a: int| 0 <= a < self@.tasks.len() implies (
                    #[trigger] self@.tasks[a].id) < self@.next_id by {
                        let a0: int = if a < i { a } else { a + 1 };
                        assert(self@.tasks[a] == prev.tasks[a0]);
                    }
                }
                Ok(())
            }
        }
    }
}

/// Updating one task without changing its id keeps the store well
/// formed.
proof fn lemma_preserves_wf_update(s: TaskStoreV, i: int, t: TaskV)
    requires
        store_wf(s),
        0 <= i < s.tasks.len(),
        t.id == s.tasks[i].id,
    ensures
        store_wf(TaskStoreV { tasks: s.tasks.update(i, t), ..s }),
{
    let ts = s.tasks.update(i, t);
    assert forall|a: int, b: int|
        0 <= a < b < ts.len() implies #[trigger] ts[a].id < #[trigger] ts[b].id by {
        assert(s.tasks[a].id < s.tasks[b].id);
    }
    assert forall|a: int| 0 <= a < ts.len() implies (#[trigger] ts[a].id) < s.next_id by {
        assert(s.tasks[a].id < s.next_id);
    }
}

} // verus!

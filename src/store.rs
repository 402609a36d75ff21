use vstd::prelude::*;

use crate::error::DatabaseError;
use crate::models::{
    Meeting, Project, SubTask, SubTaskAssignee, Task, TaskAccess, TaskAssignee,
};
use crate::relations::{subtask_pairs_unique, task_pairs_unique};
use crate::timestamp::Timestamp;

verus! {

/// The relational store that every service works on: one table per kind of
/// row, and for each table with an integer key the next key to hand out.
/// A caller passes the store to each operation; none keeps it.
#[derive(Debug)]
pub struct Store {
    pub projects: Vec<Project>,
    pub tasks: Vec<Task>,
    pub task_access: Vec<TaskAccess>,
    pub task_assignees: Vec<TaskAssignee>,
    pub sub_tasks: Vec<SubTask>,
    pub subtask_assignees: Vec<SubTaskAssignee>,
    pub meetings: Vec<Meeting>,
    pub next_project_id: i32,
    pub next_task_id: i32,
    pub next_sub_task_id: i32,
    pub next_meeting_id: i32,
}

pub open spec fn project_keys_ok(s: Seq<Project>, next: i32) -> bool {
    &&& forall|i: int| 0 <= i < s.len() ==> #[trigger] s[i].id < next
    &&& forall|i: int, j: int| 0 <= i < j < s.len() ==> #[trigger] s[i].id != #[trigger] s[j].id
}

pub open spec fn task_keys_ok(s: Seq<Task>, next: i32) -> bool {
    &&& forall|i: int| 0 <= i < s.len() ==> #[trigger] s[i].id < next
    &&& forall|i: int, j: int| 0 <= i < j < s.len() ==> #[trigger] s[i].id != #[trigger] s[j].id
}

pub open spec fn sub_task_keys_ok(s: Seq<SubTask>, next: i32) -> bool {
    &&& forall|i: int| 0 <= i < s.len() ==> #[trigger] s[i].id < next
    &&& forall|i: int, j: int| 0 <= i < j < s.len() ==> #[trigger] s[i].id != #[trigger] s[j].id
}

pub open spec fn meeting_keys_ok(s: Seq<Meeting>, next: i32) -> bool {
    &&& forall|i: int| 0 <= i < s.len() ==> #[trigger] s[i].id < next
    &&& forall|i: int, j: int| 0 <= i < j < s.len() ==> #[trigger] s[i].id != #[trigger] s[j].id
    &&& forall|i: int|
        0 <= i < s.len() ==> (#[trigger] s[i]).start_date.wf() && s[i].end_date.wf()
            && s[i].start_date.before(s[i].end_date)
}

/// Whether the project table holds a row with key `id`.
pub open spec fn has_project(s: Seq<Project>, id: i32) -> bool {
    exists|i: int| 0 <= i < s.len() && #[trigger] s[i].id == id
}

/// Whether the task table holds a row with key `id`.
pub open spec fn has_task(s: Seq<Task>, id: i32) -> bool {
    exists|i: int| 0 <= i < s.len() && #[trigger] s[i].id == id
}

pub open spec fn keeps_projects(a: Store, b: Store) -> bool {
    a.projects == b.projects && a.next_project_id == b.next_project_id
}

pub open spec fn keeps_tasks(a: Store, b: Store) -> bool {
    a.tasks == b.tasks && a.next_task_id == b.next_task_id
}

pub open spec fn keeps_task_access(a: Store, b: Store) -> bool {
    a.task_access == b.task_access
}

pub open spec fn keeps_task_assignees(a: Store, b: Store) -> bool {
    a.task_assignees == b.task_assignees
}

pub open spec fn keeps_sub_tasks(a: Store, b: Store) -> bool {
    a.sub_tasks == b.sub_tasks && a.next_sub_task_id == b.next_sub_task_id
}

pub open spec fn keeps_subtask_assignees(a: Store, b: Store) -> bool {
    a.subtask_assignees == b.subtask_assignees
}

pub open spec fn keeps_meetings(a: Store, b: Store) -> bool {
    a.meetings == b.meetings && a.next_meeting_id == b.next_meeting_id
}

impl Store {
    /// Keys are unique within each table and below the next key to hand out,
    /// every meeting has valid dates and starts before it ends, and no user
    /// is assigned twice to one task or subtask.
    pub open spec fn wf(&self) -> bool {
        &&& project_keys_ok(self.projects@, self.next_project_id)
        &&& task_keys_ok(self.tasks@, self.next_task_id)
        &&& sub_task_keys_ok(self.sub_tasks@, self.next_sub_task_id)
        &&& meeting_keys_ok(self.meetings@, self.next_meeting_id)
        &&& task_pairs_unique(self.task_assignees@)
        &&& subtask_pairs_unique(self.subtask_assignees@)
        &&& forall|k: int|
            0 <= k < self.subtask_assignees@.len() ==> (#[trigger] self.subtask_assignees@[k]).sub_task_id
                < self.next_sub_task_id
    }

    /// An empty store.
    pub fn new() -> (r: Store)
        ensures
            r.wf(),
            r.projects@.len() == 0,
            r.tasks@.len() == 0,
            r.task_access@.len() == 0,
            r.task_assignees@.len() == 0,
            r.sub_tasks@.len() == 0,
            r.subtask_assignees@.len() == 0,
            r.meetings@.len() == 0,
            r.next_project_id == 1,
            r.next_task_id == 1,
            r.next_sub_task_id == 1,
            r.next_meeting_id == 1,
    {
        Store {
            projects: Vec::new(),
            tasks: Vec::new(),
            task_access: Vec::new(),
            task_assignees: Vec::new(),
            sub_tasks: Vec::new(),
            subtask_assignees: Vec::new(),
            meetings: Vec::new(),
            next_project_id: 1,
            next_task_id: 1,
            next_sub_task_id: 1,
            next_meeting_id: 1,
        }
    }

    /// Position of the project with key `id`.
    pub fn find_project(&self, id: i32) -> (r: Option<usize>)
        ensures
            match r {
                Some(i) => i < self.projects@.len() && self.projects@[i as int].id == id,
                None => !has_project(self.projects@, id),
            },
    {
        let mut i: usize = 0;
        while i < self.projects.len()
            invariant
                i <= self.projects@.len(),
                forall|k: int| 0 <= k < i ==> #[trigger] self.projects@[k].id != id,
            decreases self.projects@.len() - i,
        {
            if self.projects[i].id == id {
                return Some(i);
            }
            i += 1;
        }
        None
    }

    /// Position of the task with key `id`.
    pub fn find_task(&self, id: i32) -> (r: Option<usize>)
        ensures
            match r {
                Some(i) => i < self.tasks@.len() && self.tasks@[i as int].id == id,
                None => !has_task(self.tasks@, id),
            },
    {
        let mut i: usize = 0;
        while i < self.tasks.len()
            invariant
                i <= self.tasks@.len(),
                forall|k: int| 0 <= k < i ==> #[trigger] self.tasks@[k].id != id,
            decreases self.tasks@.len() - i,
        {
            if self.tasks[i].id == id {
                return Some(i);
            }
            i += 1;
        }
        None
    }

    /// Position of the subtask with key `id`.
    pub fn find_sub_task(&self, id: i32) -> (r: Option<usize>)
        ensures
            match r {
                Some(i) => i < self.sub_tasks@.len() && self.sub_tasks@[i as int].id == id,
                None => forall|k: int|
                    0 <= k < self.sub_tasks@.len() ==> #[trigger] self.sub_tasks@[k].id != id,
            },
    {
        let mut i: usize = 0;
        while i < self.sub_tasks.len()
            invariant
                i <= self.sub_tasks@.len(),
                forall|k: int| 0 <= k < i ==> #[trigger] self.sub_tasks@[k].id != id,
            decreases self.sub_tasks@.len() - i,
        {
            if self.sub_tasks[i].id == id {
                return Some(i);
            }
            i += 1;
        }
        None
    }

    /// Position of the meeting with key `id`.
    pub fn find_meeting(&self, id: i32) -> (r: Option<usize>)
        ensures
            match r {
                Some(i) => i < self.meetings@.len() && self.meetings@[i as int].id == id,
                None => forall|k: int|
                    0 <= k < self.meetings@.len() ==> #[trigger] self.meetings@[k].id != id,
            },
    {
        let mut i: usize = 0;
        while i < self.meetings.len()
            invariant
                i <= self.meetings@.len(),
                forall|k: int| 0 <= k < i ==> #[trigger] self.meetings@[k].id != id,
            decreases self.meetings@.len() - i,
        {
            if self.meetings[i].id == id {
                return Some(i);
            }
            i += 1;
        }
        None
    }
}

/// Creates a project owned by `user_id`, created at `now`.
pub fn create_project(
    store: &mut Store,
    user_id: i32,
    title: String,
    description: String,
    now: Timestamp,
) -> (r: Result<Project, DatabaseError>)
    requires
        old(store).wf(),
    ensures
        final(store).wf(),
        old(store).next_project_id == i32::MAX ==> (r matches Err(DatabaseError::StoreFull)
            && *final(store) == *old(store)),
        old(store).next_project_id < i32::MAX ==> (r matches Ok(p) && p == (Project {
            id: old(store).next_project_id,
            user_id,
            title,
            description,
            created_at: now,
        }) && final(store).projects@ == old(store).projects@.push(p)
            && final(store).next_project_id == old(store).next_project_id + 1),
        keeps_tasks(*old(store), *final(store)),
        keeps_task_access(*old(store), *final(store)),
        keeps_task_assignees(*old(store), *final(store)),
        keeps_sub_tasks(*old(store), *final(store)),
        keeps_subtask_assignees(*old(store), *final(store)),
        keeps_meetings(*old(store), *final(store)),
{
    if store.next_project_id == i32::MAX {
        return Err(DatabaseError::StoreFull);
    }
    let p = Project { id: store.next_project_id, user_id, title, description, created_at: now };
    let out = p.duplicate();
    store.projects.push(p);
    store.next_project_id = store.next_project_id + 1;
    Ok(out)
}

} // verus!

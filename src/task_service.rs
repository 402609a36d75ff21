use vstd::prelude::*;

use crate::access::{has_grant, owns_project, owns_task, user_owns_project, validate_task_ownership};
use crate::error::DatabaseError;
use crate::helpers::{check_due_date, due_date_outcome, text_of};
use crate::models::{Priority, Progress, SubTask, Task, TaskWithAssignedUsers, TaskWithSubTasks, UpdateTaskRequest};
use crate::relations::{
    collect_task_assignees, has_repeats, lemma_task_replacement, lemma_task_replacement_unique,
    repeats, replace_task_assignees, subtasks_of_task,
    task_assignee_ids, task_assignee_rows, tasks_of_user, without_task_assignees,
};
use crate::store::{
    has_project, has_task, keeps_meetings, keeps_projects, keeps_sub_tasks,
    keeps_subtask_assignees, keeps_task_access, keeps_task_assignees, Store,
};
use crate::clock::day_first_date;
use crate::error::TaskErrorKind;
use crate::timestamp::{midnight_of, Timestamp};

verus! {

/// `r` is the refused task date of the outcome `k` for the text `input`.
pub open spec fn is_date_error(r: DatabaseError, k: crate::error::TaskErrorKind, input: Option<Seq<char>>) -> bool {
    match r {
        DatabaseError::InvalidTaskDate(e) => e.kind == k && input == Some(e.value@),
        _ => false,
    }
}

/// The task `t` after the changes of `u`, with `due` the resolved due date.
pub open spec fn task_after_update(t: Task, u: UpdateTaskRequest, due: Option<Timestamp>) -> Task {
    Task {
        description: match u.description {
            Some(d) => d,
            None => t.description,
        },
        reward: match u.reward {
            Some(x) => x,
            None => t.reward,
        },
        completed: match u.completed {
            Some(c) => c,
            None => t.completed,
        },
        title: match u.title {
            Some(x) => x,
            None => t.title,
        },
        progress: match u.progress {
            Some(p) => p,
            None => t.progress,
        },
        priority: match u.priority {
            Some(p) => p,
            None => t.priority,
        },
        due_date: match due {
            Some(d) => Some(d),
            None => t.due_date,
        },
        ..t
    }
}

/// Creates a task in the project `project_id` for `user_id`, to do, of
/// medium priority, created at `now`. A due date is resolved first; then the
/// project must exist, else the broken reference is `ProjectNotFound`.
pub fn create_task(
    store: &mut Store,
    description: &str,
    reward: i64,
    project_id: i32,
    user_id: i32,
    title: &str,
    due_date: Option<String>,
    now: Timestamp,
) -> (r: Result<Task, DatabaseError>)
    requires
        old(store).wf(),
    ensures
        final(store).wf(),
        match due_date_outcome(text_of(due_date), now) {
            Err(k) => (r matches Err(e) && is_date_error(e, k, text_of(due_date))),
            Ok(due) => if !has_project(old(store).projects@, project_id) {
                (r matches Err(DatabaseError::ProjectNotFound))
            } else if old(store).next_task_id == i32::MAX {
                (r matches Err(DatabaseError::StoreFull))
            } else {
                (r matches Ok(t) && t.id == old(store).next_task_id && t.project_id == project_id
                    && t.user_id == Some(user_id) && t.title@ == title@ && t.description@
                    == description@ && t.reward == reward && !t.completed && t.progress
                    == Progress::ToDo && t.priority == Priority::Medium && t.due_date == due
                    && t.created_at == now && final(store).tasks@ == old(store).tasks@.push(t)
                    && final(store).next_task_id == old(store).next_task_id + 1)
            },
        },
        r is Err ==> *final(store) == *old(store),
        keeps_projects(*old(store), *final(store)),
        keeps_task_access(*old(store), *final(store)),
        keeps_task_assignees(*old(store), *final(store)),
        keeps_sub_tasks(*old(store), *final(store)),
        keeps_subtask_assignees(*old(store), *final(store)),
        keeps_meetings(*old(store), *final(store)),
{
    let due = match check_due_date(due_date, now) {
        Ok(d) => d,
        Err(e) => {
            return Err(DatabaseError::InvalidTaskDate(e));
        },
    };
    if store.find_project(project_id).is_none() {
        return Err(DatabaseError::ProjectNotFound);
    }
    if store.next_task_id == i32::MAX {
        return Err(DatabaseError::StoreFull);
    }
    let t = Task {
        id: store.next_task_id,
        project_id,
        user_id: Some(user_id),
        title: title.to_owned(),
        description: description.to_owned(),
        reward,
        completed: false,
        progress: Progress::ToDo,
        priority: Priority::Medium,
        due_date: due,
        created_at: now,
    };
    let out = t.duplicate();
    store.tasks.push(t);
    store.next_task_id = store.next_task_id + 1;
    Ok(out)
}

/// All tasks created by `users_id`, in the order they were created.
pub fn get_tasks(store: &Store, users_id: i32) -> (r: Vec<Task>)
    ensures
        r@ == tasks_of_user(store.tasks@, users_id),
{
    let mut out: Vec<Task> = Vec::new();
    let mut i: usize = 0;
    while i < store.tasks.len()
        invariant
            i <= store.tasks@.len(),
            out@ == tasks_of_user(store.tasks@.take(i as int), users_id),
        decreases store.tasks@.len() - i,
    {
        assert(store.tasks@.take(i as int + 1).drop_last() =~= store.tasks@.take(i as int));
        if store.tasks[i].user_id == Some(users_id) {
            out.push(store.tasks[i].duplicate());
        }
        i += 1;
    }
    assert(store.tasks@.take(store.tasks@.len() as int) =~= store.tasks@);
    out
}

/// All subtasks of the task `task_id`, in table order.
pub fn subtasks_for_task(store: &Store, task_id: i32) -> (r: Vec<SubTask>)
    ensures
        r@ == subtasks_of_task(store.sub_tasks@, task_id),
{
    let mut out: Vec<SubTask> = Vec::new();
    let mut i: usize = 0;
    while i < store.sub_tasks.len()
        invariant
            i <= store.sub_tasks@.len(),
            out@ == subtasks_of_task(store.sub_tasks@.take(i as int), task_id),
        decreases store.sub_tasks@.len() - i,
    {
        assert(store.sub_tasks@.take(i as int + 1).drop_last() =~= store.sub_tasks@.take(i as int));
        if store.sub_tasks[i].task_id == task_id {
            out.push(store.sub_tasks[i].duplicate());
        }
        i += 1;
    }
    assert(store.sub_tasks@.take(store.sub_tasks@.len() as int) =~= store.sub_tasks@);
    out
}

/// `user_id` may read the task `task_id`: it exists and lies in a project
/// that `user_id` created.
pub open spec fn may_read_task(s: Store, task_id: i32, user_id: i32) -> bool {
    exists|i: int|
        0 <= i < s.tasks@.len() && #[trigger] s.tasks@[i].id == task_id && owns_project(
            s,
            s.tasks@[i].project_id,
            user_id,
        )
}

/// The task `task_id` with all its subtasks, where it lies in a project that
/// `user_id` created. Access grants do not open this read path; otherwise,
/// and where the task does not exist, the answer is `NotFound`.
pub fn get_task_by_id(store: &Store, task_id: i32, user: i32) -> (r: Result<
    TaskWithSubTasks,
    DatabaseError,
>)
    requires
        store.wf(),
    ensures
        r is Ok <==> may_read_task(*store, task_id, user),
        r matches Ok(tw) ==> (exists|i: int|
            0 <= i < store.tasks@.len() && #[trigger] store.tasks@[i].id == task_id && tw.task
                == store.tasks@[i]) && tw.subtasks@ == subtasks_of_task(store.sub_tasks@, task_id),
        r is Err ==> (r matches Err(DatabaseError::NotFound)),
{
    let i = match store.find_task(task_id) {
        Some(i) => i,
        None => {
            return Err(DatabaseError::NotFound);
        },
    };
    if !user_owns_project(store, store.tasks[i].project_id, user) {
        proof {
            if may_read_task(*store, task_id, user) {
                let j = choose|j: int|
                    0 <= j < store.tasks@.len() && #[trigger] store.tasks@[j].id == task_id
                        && owns_project(*store, store.tasks@[j].project_id, user);
                if (i as int) < j {
                    assert(store.tasks@[i as int].id != store.tasks@[j].id);
                } else if j < i {
                    assert(store.tasks@[j].id != store.tasks@[i as int].id);
                }
            }
        }
        return Err(DatabaseError::NotFound);
    }
    let task = store.tasks[i].duplicate();
    let subtasks = subtasks_for_task(store, task_id);
    Ok(TaskWithSubTasks { task, subtasks })
}

/// Changes the task `task_id` on behalf of `user_id`, who must have created it
/// or hold an access grant on it. Only the fields present in `update` change;
/// present `assigned_users` (without repeats) replace the whole set of
/// assignees. Nothing changes unless every check passes.
pub fn update_task(
    store: &mut Store,
    task_id: i32,
    user_id: i32,
    update: UpdateTaskRequest,
    now: Timestamp,
) -> (r: Result<TaskWithAssignedUsers, DatabaseError>)
    requires
        old(store).wf(),
    ensures
        final(store).wf(),
        !owns_task(*old(store), task_id, user_id) && !has_grant(*old(store), task_id, user_id)
            ==> (r matches Err(DatabaseError::PermissionDenied)),
        !has_task(old(store).tasks@, task_id) && has_grant(*old(store), task_id, user_id) ==> (
        r matches Err(DatabaseError::NotFound)),
        has_task(old(store).tasks@, task_id) && (owns_task(*old(store), task_id, user_id)
            || has_grant(*old(store), task_id, user_id)) ==> match due_date_outcome(
            text_of(update.due_date),
            now,
        ) {
            Err(k) => (r matches Err(e) && is_date_error(e, k, text_of(update.due_date))),
            Ok(due) => if repeats(update.assigned_users) {
                (r matches Err(DatabaseError::DuplicateAssignee))
            } else {
                (r matches Ok(tw) && (exists|i: int|
                0 <= i < old(store).tasks@.len() && #[trigger] old(store).tasks@[i].id == task_id
                    && final(store).tasks@ == old(store).tasks@.update(
                    i,
                    task_after_update(old(store).tasks@[i], update, due),
                ) && tw.task == final(store).tasks@[i]) && final(store).task_assignees@ == (
            match update.assigned_users {
                Some(v) => without_task_assignees(old(store).task_assignees@, task_id)
                    + task_assignee_rows(task_id, v@, now),
                None => old(store).task_assignees@,
            }) && tw.assigned_users@ == task_assignee_ids(final(store).task_assignees@, task_id)
                && (update.assigned_users matches Some(v) ==> tw.assigned_users@ == v@))
            },
        },
        r is Err ==> *final(store) == *old(store),
        keeps_projects(*old(store), *final(store)),
        keeps_task_access(*old(store), *final(store)),
        keeps_sub_tasks(*old(store), *final(store)),
        keeps_subtask_assignees(*old(store), *final(store)),
        keeps_meetings(*old(store), *final(store)),
        final(store).next_task_id == old(store).next_task_id,
{
    match validate_task_ownership(store, task_id, user_id) {
        Ok(_) => {},
        Err(e) => {
            return Err(e);
        },
    }
    let UpdateTaskRequest {
        description,
        reward,
        completed,
        title,
        progress,
        priority,
        due_date,
        assigned_users,
    } = update;
    let due = match check_due_date(due_date, now) {
        Ok(d) => d,
        Err(e) => {
            return Err(DatabaseError::InvalidTaskDate(e));
        },
    };
    if let Some(v) = &assigned_users {
        if has_repeats(v) {
            return Err(DatabaseError::DuplicateAssignee);
        }
    }
    let i = match store.find_task(task_id) {
        Some(i) => i,
        None => {
            return Err(DatabaseError::NotFound);
        },
    };
    let old_task = store.tasks[i].duplicate();
    let new_task = Task {
        id: old_task.id,
        project_id: old_task.project_id,
        user_id: old_task.user_id,
        title: match title {
            Some(x) => x,
            None => old_task.title,
        },
        description: match description {
            Some(d) => d,
            None => old_task.description,
        },
        reward: match reward {
            Some(x) => x,
            None => old_task.reward,
        },
        completed: match completed {
            Some(c) => c,
            None => old_task.completed,
        },
        progress: match progress {
            Some(p) => p,
            None => old_task.progress,
        },
        priority: match priority {
            Some(p) => p,
            None => old_task.priority,
        },
        due_date: match due {
            Some(d) => Some(d),
            None => old_task.due_date,
        },
        created_at: old_task.created_at,
    };
    let out = new_task.duplicate();
    store.tasks.set(i, new_task);
    match assigned_users {
        Some(v) => {
            replace_task_assignees(&mut store.task_assignees, task_id, &v, now);
            proof {
                lemma_task_replacement(old(store).task_assignees@, task_id, v@, now);
                lemma_task_replacement_unique(old(store).task_assignees@, task_id, v@, now);
            }
        },
        None => {},
    }
    let assigned = collect_task_assignees(&store.task_assignees, task_id);
    Ok(TaskWithAssignedUsers { task: out, assigned_users: assigned })
}

/// A task created with a due date is read back with that date at midnight:
/// where `create_task` succeeded on `before` with the due text `text`, giving
/// `t` and the store `after`, the task is readable by the creator of its
/// project, the only row under its key is `t`, and its due date is midnight
/// of the day that `text` names.
pub proof fn lemma_due_date_round_trip(
    text: Seq<char>,
    now: Timestamp,
    y: int,
    m: int,
    d: int,
    before: Store,
    after: Store,
    t: Task,
    user_id: i32,
)
    requires
        before.wf(),
        day_first_date(text) == Some((y, m, d)),
        due_date_outcome(Some(text), now) == Ok::<Option<Timestamp>, TaskErrorKind>(t.due_date),
        t.id == before.next_task_id,
        after.tasks@ == before.tasks@.push(t),
        keeps_projects(before, after),
        owns_project(before, t.project_id, user_id),
    ensures
        t.due_date == Some(midnight_of(y, m, d)),
        may_read_task(after, t.id, user_id),
        forall|i: int|
            0 <= i < after.tasks@.len() && #[trigger] after.tasks@[i].id == t.id ==> after.tasks@[i]
                == t,
{
    let n = before.tasks@.len() as int;
    assert(after.tasks@[n] == t);
    assert(owns_project(after, after.tasks@[n].project_id, user_id));
    assert forall|i: int|
        0 <= i < after.tasks@.len() && #[trigger] after.tasks@[i].id == t.id implies after.tasks@[i]
            == t by {
        if i < n {
            assert(after.tasks@[i] == before.tasks@[i]);
            assert(before.tasks@[i].id < before.next_task_id);
        }
    }
}

/// Reading a task is open only to the creator of its project: where user `a`
/// created the project that holds the task, any other user `b` is refused.
pub proof fn lemma_task_read_needs_project_owner(s: Store, task_id: i32, a: i32, b: i32)
    requires
        s.wf(),
        may_read_task(s, task_id, a),
        a != b,
    ensures
        !may_read_task(s, task_id, b),
{
    if may_read_task(s, task_id, b) {
        let i = choose|i: int|
            0 <= i < s.tasks@.len() && #[trigger] s.tasks@[i].id == task_id && owns_project(
                s,
                s.tasks@[i].project_id,
                a,
            );
        let j = choose|j: int|
            0 <= j < s.tasks@.len() && #[trigger] s.tasks@[j].id == task_id && owns_project(
                s,
                s.tasks@[j].project_id,
                b,
            );
        if i < j {
            assert(s.tasks@[i].id != s.tasks@[j].id);
        } else if j < i {
            assert(s.tasks@[j].id != s.tasks@[i].id);
        }
        let pid = s.tasks@[i].project_id;
        let p = choose|p: int|
            0 <= p < s.projects@.len() && #[trigger] s.projects@[p].id == pid
                && s.projects@[p].user_id == a;
        let q = choose|q: int|
            0 <= q < s.projects@.len() && #[trigger] s.projects@[q].id == pid
                && s.projects@[q].user_id == b;
        if p < q {
            assert(s.projects@[p].id != s.projects@[q].id);
        } else if q < p {
            assert(s.projects@[q].id != s.projects@[p].id);
        }
    }
}

} // verus!

use vstd::prelude::*;

use crate::models::{Progress, Project, Task, TaskWithAssignees, TaskAssignee};
use crate::relations::{collect_task_assignees, task_assignee_ids};
use crate::store::Store;

verus! {

/// The progress that a filter word names: `to_do`, `in_progress` or
/// `completed`.
pub open spec fn progress_named(s: Seq<char>) -> Option<Progress> {
    if s == "to_do"@ {
        Some(Progress::ToDo)
    } else if s == "in_progress"@ {
        Some(Progress::InProgress)
    } else if s == "completed"@ {
        Some(Progress::Completed)
    } else {
        None
    }
}

/// Reads a progress filter word; any other word is refused.
pub fn match_progress(progress: &str) -> (r: Result<Progress, ()>)
    ensures
        match progress_named(progress@) {
            Some(p) => r == Ok::<Progress, ()>(p),
            None => r is Err,
        },
{
    let word = progress.to_owned();
    if word == "to_do".to_owned() {
        Ok(Progress::ToDo)
    } else if word == "in_progress".to_owned() {
        Ok(Progress::InProgress)
    } else if word == "completed".to_owned() {
        Ok(Progress::Completed)
    } else {
        Err(())
    }
}

/// The tasks at progress `p`, in table order.
pub open spec fn tasks_at_progress(s: Seq<Task>, p: Progress) -> Seq<Task>
    decreases s.len(),
{
    if s.len() == 0 {
        Seq::empty()
    } else if s.last().progress == p {
        tasks_at_progress(s.drop_last(), p).push(s.last())
    } else {
        tasks_at_progress(s.drop_last(), p)
    }
}

/// All tasks, or where a filter word is given only those at the progress it
/// names; an unknown word is refused.
pub fn tasks_by_progress(store: &Store, progress_filter: Option<&str>) -> (r: Result<Vec<Task>, ()>)
    ensures
        match progress_filter {
            None => (r matches Ok(v) && v@ == store.tasks@),
            Some(w) => match progress_named(w@) {
                Some(p) => (r matches Ok(v) && v@ == tasks_at_progress(store.tasks@, p)),
                None => r is Err,
            },
        },
{
    let wanted = match progress_filter {
        Some(w) => match match_progress(w) {
            Ok(p) => Some(p),
            Err(()) => {
                return Err(());
            },
        },
        None => None,
    };
    let mut out: Vec<Task> = Vec::new();
    let mut i: usize = 0;
    while i < store.tasks.len()
        invariant
            i <= store.tasks@.len(),
            match wanted {
                Some(p) => out@ == tasks_at_progress(store.tasks@.take(i as int), p),
                None => out@ == store.tasks@.take(i as int),
            },
        decreases store.tasks@.len() - i,
    {
        assert(store.tasks@.take(i as int + 1).drop_last() =~= store.tasks@.take(i as int));
        assert(store.tasks@.take(i as int).push(store.tasks@[i as int]) =~= store.tasks@.take(
            i as int + 1,
        ));
        let keep = match wanted {
            Some(p) => store.tasks[i].progress == p,
            None => true,
        };
        if keep {
            out.push(store.tasks[i].duplicate());
        }
        i += 1;
    }
    assert(store.tasks@.take(store.tasks@.len() as int) =~= store.tasks@);
    Ok(out)
}

/// A project of `user_id` that none of their projects was created after, or
/// `None` where the user has no project.
pub fn latest_project(store: &Store, user_id: i32) -> (r: Option<Project>)
    ensures
        r is None <==> forall|i: int|
            0 <= i < store.projects@.len() ==> #[trigger] store.projects@[i].user_id != user_id,
        r matches Some(p) ==> (exists|i: int|
            0 <= i < store.projects@.len() && #[trigger] store.projects@[i] == p) && p.user_id
            == user_id && forall|j: int|
            0 <= j < store.projects@.len() && #[trigger] store.projects@[j].user_id == user_id
                ==> !p.created_at.before(store.projects@[j].created_at),
{
    let mut best: Option<usize> = None;
    let mut i: usize = 0;
    while i < store.projects.len()
        invariant
            i <= store.projects@.len(),
            best is None ==> forall|k: int|
                0 <= k < i ==> #[trigger] store.projects@[k].user_id != user_id,
            best matches Some(b) ==> b < i && store.projects@[b as int].user_id == user_id
                && forall|k: int|
                0 <= k < i && #[trigger] store.projects@[k].user_id == user_id
                    ==> !store.projects@[b as int].created_at.before(store.projects@[k].created_at),
        decreases store.projects@.len() - i,
    {
        if store.projects[i].user_id == user_id {
            match best {
                None => {
                    best = Some(i);
                },
                Some(b) => {
                    if store.projects[b].created_at.is_before(&store.projects[i].created_at) {
                        proof {
                            assert forall|k: int|
                                0 <= k < i + 1 && #[trigger] store.projects@[k].user_id == user_id
                                    implies !store.projects@[i as int].created_at.before(
                                store.projects@[k].created_at,
                            ) by {
                                if k < i {
                                    let a = store.projects@[b as int].created_at;
                                    let c = store.projects@[k].created_at;
                                    let n = store.projects@[i as int].created_at;
                                    crate::timestamp::lemma_before_total(a, c);
                                    if n.before(c) {
                                        crate::timestamp::lemma_before_transitive(a, n, c);
                                    }
                                }
                            }
                        }
                        best = Some(i);
                    }
                },
            }
        }
        i += 1;
    }
    match best {
        Some(b) => Some(store.projects[b].duplicate()),
        None => None,
    }
}

/// The tasks that have at least one assignee, in table order, each with the
/// users assigned to it.
pub open spec fn assigned_of(tasks: Seq<Task>, rows: Seq<TaskAssignee>) -> Seq<(Task, Seq<i32>)>
    decreases tasks.len(),
{
    if tasks.len() == 0 {
        Seq::empty()
    } else if task_assignee_ids(rows, tasks.last().id).len() > 0 {
        assigned_of(tasks.drop_last(), rows).push(
            (tasks.last(), task_assignee_ids(rows, tasks.last().id)),
        )
    } else {
        assigned_of(tasks.drop_last(), rows)
    }
}

/// Every task that has assignees, in table order, with its assignees.
pub fn get_assigned_tasks(store: &Store) -> (r: Vec<TaskWithAssignees>)
    ensures
        r@.len() == assigned_of(store.tasks@, store.task_assignees@).len(),
        forall|k: int|
            0 <= k < r@.len() ==> (#[trigger] r@[k]).task == assigned_of(
                store.tasks@,
                store.task_assignees@,
            )[k].0 && r@[k].assignees@ == assigned_of(store.tasks@, store.task_assignees@)[k].1,
{
    let mut out: Vec<TaskWithAssignees> = Vec::new();
    let mut i: usize = 0;
    while i < store.tasks.len()
        invariant
            i <= store.tasks@.len(),
            out@.len() == assigned_of(store.tasks@.take(i as int), store.task_assignees@).len(),
            forall|k: int|
                0 <= k < out@.len() ==> (#[trigger] out@[k]).task == assigned_of(
                    store.tasks@.take(i as int),
                    store.task_assignees@,
                )[k].0 && out@[k].assignees@ == assigned_of(
                    store.tasks@.take(i as int),
                    store.task_assignees@,
                )[k].1,
        decreases store.tasks@.len() - i,
    {
        assert(store.tasks@.take(i as int + 1).drop_last() =~= store.tasks@.take(i as int));
        let ids = collect_task_assignees(&store.task_assignees, store.tasks[i].id);
        if ids.len() > 0 {
            out.push(TaskWithAssignees { task: store.tasks[i].duplicate(), assignees: ids });
        }
        i += 1;
    }
    assert(store.tasks@.take(store.tasks@.len() as int) =~= store.tasks@);
    out
}

} // verus!

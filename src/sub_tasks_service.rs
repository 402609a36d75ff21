use vstd::prelude::*;

use crate::error::DatabaseError;
use crate::helpers::{check_created_at, check_due_date, created_at_outcome, due_date_outcome, text_of};
use crate::models::{Priority, Progress, SubTask, SubTaskWithAssignedUsers, SubTaskWithAssignees};
use crate::relations::{
    append_subtask_assignees, clear_subtask_assignees, collect_subtask_assignees, has_repeats,
    lemma_subtask_append_unique, lemma_subtask_clear_unique, lemma_subtask_replacement,
    lemma_subtask_replacement_unique, repeats, replace_subtask_assignees, subtask_assignee_ids,
    subtask_assignee_rows, subtasks_of_task, subtasks_of_user, without_subtask_assignees,
};
use crate::store::{
    has_task, keeps_meetings, keeps_projects, keeps_task_access, keeps_task_assignees,
    keeps_tasks, sub_task_keys_ok, Store,
};
use crate::task_service::{is_date_error, subtasks_for_task};
use crate::timestamp::Timestamp;

verus! {

/// The optional text `o` as a text.
pub open spec fn str_text(o: Option<&str>) -> Option<Seq<char>> {
    match o {
        Some(s) => Some(s@),
        None => None,
    }
}

/// What an optional creation date given to an update resolves to: no change
/// when absent.
pub open spec fn update_created_at_outcome(input: Option<Seq<char>>, now: Timestamp) -> Result<
    Option<Timestamp>,
    crate::error::TaskErrorKind,
> {
    match input {
        None => Ok(None),
        Some(s) => match created_at_outcome(Some(s), now) {
            Ok(t) => Ok(Some(t)),
            Err(k) => Err(k),
        },
    }
}

/// Creates a subtask of the task `task_id` for `user_id`, not completed,
/// updated at `now`, assigned to `assignee_user` where given (a list without
/// repeats). The parent task must exist; then the due date and the creation
/// date are resolved.
pub fn create_subtask(
    store: &mut Store,
    task_id: i32,
    title: &str,
    description: &str,
    created_at: Option<String>,
    due_date: Option<String>,
    priority: Priority,
    progress: Progress,
    user_id: i32,
    assignee_user: Option<Vec<i32>>,
    now: Timestamp,
) -> (r: Result<SubTask, DatabaseError>)
    requires
        old(store).wf(),
        now.wf(),
    ensures
        final(store).wf(),
        !has_task(old(store).tasks@, task_id) ==> (r matches Err(DatabaseError::TaskNotFound)),
        has_task(old(store).tasks@, task_id) ==> match due_date_outcome(text_of(due_date), now) {
            Err(k) => (r matches Err(e) && is_date_error(e, k, text_of(due_date))),
            Ok(due) => match created_at_outcome(text_of(created_at), now) {
                Err(k) => (r matches Err(e) && is_date_error(e, k, text_of(created_at))),
                Ok(c) => if repeats(assignee_user) {
                    (r matches Err(DatabaseError::DuplicateAssignee))
                } else if old(store).next_sub_task_id == i32::MAX {
                    (r matches Err(DatabaseError::StoreFull))
                } else {
                    (r matches Ok(st) && st.id == old(store).next_sub_task_id && st.task_id
                        == task_id && st.title@ == title@ && st.description is Some && st.description.unwrap()@
                        == description@ && st.created_at == c && st.updated_at == now
                        && st.due_date == due && st.priority == priority && st.progress == progress
                        && st.user_id == user_id && !st.completed && final(store).sub_tasks@
                        == old(store).sub_tasks@.push(st) && final(store).next_sub_task_id
                        == old(store).next_sub_task_id + 1 && final(store).subtask_assignees@ == (
                    match assignee_user {
                        Some(v) => old(store).subtask_assignees@ + subtask_assignee_rows(
                            st.id,
                            task_id,
                            v@,
                        ),
                        None => old(store).subtask_assignees@,
                    }))
                },
            },
        },
        r is Err ==> *final(store) == *old(store),
        keeps_projects(*old(store), *final(store)),
        keeps_tasks(*old(store), *final(store)),
        keeps_task_access(*old(store), *final(store)),
        keeps_task_assignees(*old(store), *final(store)),
        keeps_meetings(*old(store), *final(store)),
{
    if store.find_task(task_id).is_none() {
        return Err(DatabaseError::TaskNotFound);
    }
    let due = match check_due_date(due_date, now) {
        Ok(d) => d,
        Err(e) => {
            return Err(DatabaseError::InvalidTaskDate(e));
        },
    };
    let created = match check_created_at(created_at, now) {
        Ok(c) => c,
        Err(e) => {
            return Err(DatabaseError::InvalidTaskDate(e));
        },
    };
    if let Some(v) = &assignee_user {
        if has_repeats(v) {
            return Err(DatabaseError::DuplicateAssignee);
        }
    }
    if store.next_sub_task_id == i32::MAX {
        return Err(DatabaseError::StoreFull);
    }
    let st = SubTask {
        id: store.next_sub_task_id,
        task_id,
        title: title.to_owned(),
        description: Some(description.to_owned()),
        created_at: created,
        updated_at: now,
        due_date: due,
        priority,
        progress,
        user_id,
        completed: false,
    };
    let out = st.duplicate();
    store.sub_tasks.push(st);
    store.next_sub_task_id = store.next_sub_task_id + 1;
    match assignee_user {
        Some(v) => {
            proof {
                lemma_subtask_append_unique(store.subtask_assignees@, out.id, task_id, v@);
            }
            let ghost before = store.subtask_assignees@;
            append_subtask_assignees(&mut store.subtask_assignees, out.id, task_id, &v);
            proof {
                assert forall|k: int| 0 <= k < store.subtask_assignees@.len() implies (
                #[trigger] store.subtask_assignees@[k]).sub_task_id < store.next_sub_task_id by {
                    if k < before.len() {
                        assert(store.subtask_assignees@[k] == before[k]);
                        assert(before == old(store).subtask_assignees@);
                        assert(old(store).subtask_assignees@[k].sub_task_id < old(
                            store,
                        ).next_sub_task_id);
                    } else {
                        assert(store.subtask_assignees@[k] == (before + subtask_assignee_rows(
                            out.id,
                            task_id,
                            v@,
                        ))[k]);
                        assert(out.id == old(store).next_sub_task_id);
                    }
                }
            }
        },
        None => {},
    }
    Ok(out)
}

/// All subtasks created by `users_id`, in table order.
pub fn get_sub_tasks(store: &Store, users_id: i32) -> (r: Vec<SubTask>)
    ensures
        r@ == subtasks_of_user(store.sub_tasks@, users_id),
{
    let mut out: Vec<SubTask> = Vec::new();
    let mut i: usize = 0;
    while i < store.sub_tasks.len()
        invariant
            i <= store.sub_tasks@.len(),
            out@ == subtasks_of_user(store.sub_tasks@.take(i as int), users_id),
        decreases store.sub_tasks@.len() - i,
    {
        assert(store.sub_tasks@.take(i as int + 1).drop_last() =~= store.sub_tasks@.take(i as int));
        if store.sub_tasks[i].user_id == users_id {
            out.push(store.sub_tasks[i].duplicate());
        }
        i += 1;
    }
    assert(store.sub_tasks@.take(store.sub_tasks@.len() as int) =~= store.sub_tasks@);
    out
}

/// Every subtask of the task `task_id`, in table order, each with the users
/// assigned to it.
pub fn get_sub_tasks_with_assignees(store: &Store, task_id: i32) -> (r: Vec<SubTaskWithAssignees>)
    ensures
        r@.len() == subtasks_of_task(store.sub_tasks@, task_id).len(),
        forall|k: int|
            0 <= k < r@.len() ==> (#[trigger] r@[k]).sub_task == subtasks_of_task(
                store.sub_tasks@,
                task_id,
            )[k] && r@[k].assignees@ == subtask_assignee_ids(
                store.subtask_assignees@,
                r@[k].sub_task.id,
            ),
{
    let subs = subtasks_for_task(store, task_id);
    let mut out: Vec<SubTaskWithAssignees> = Vec::new();
    let mut k: usize = 0;
    while k < subs.len()
        invariant
            k <= subs@.len(),
            subs@ == subtasks_of_task(store.sub_tasks@, task_id),
            out@.len() == k,
            forall|j: int|
                0 <= j < k ==> (#[trigger] out@[j]).sub_task == subs@[j] && out@[j].assignees@
                    == subtask_assignee_ids(store.subtask_assignees@, subs@[j].id),
        decreases subs@.len() - k,
    {
        let st = subs[k].duplicate();
        let assignees = collect_subtask_assignees(&store.subtask_assignees, st.id);
        out.push(SubTaskWithAssignees::new(st, assignees));
        k += 1;
    }
    out
}

/// The subtask `sub_task_id` exists, belongs to the task `task_id` and was
/// created by `user_id`.
pub open spec fn matches_subtask(s: Store, sub_task_id: i32, task_id: i32, user_id: i32) -> bool {
    exists|i: int|
        0 <= i < s.sub_tasks@.len() && #[trigger] s.sub_tasks@[i].id == sub_task_id
            && s.sub_tasks@[i].task_id == task_id && s.sub_tasks@[i].user_id == user_id
}

/// Position of the subtask `sub_task_id` where it belongs to `task_id` and
/// was created by `user_id`.
fn find_owned_subtask(store: &Store, sub_task_id: i32, task_id: i32, user_id: i32) -> (r: Option<
    usize,
>)
    requires
        store.wf(),
    ensures
        r is Some <==> matches_subtask(*store, sub_task_id, task_id, user_id),
        r matches Some(i) ==> i < store.sub_tasks@.len() && store.sub_tasks@[i as int].id
            == sub_task_id && store.sub_tasks@[i as int].task_id == task_id
            && store.sub_tasks@[i as int].user_id == user_id,
{
    match store.find_sub_task(sub_task_id) {
        Some(i) => {
            if store.sub_tasks[i].task_id == task_id && store.sub_tasks[i].user_id == user_id {
                Some(i)
            } else {
                proof {
                    if matches_subtask(*store, sub_task_id, task_id, user_id) {
                        let j = choose|j: int|
                            0 <= j < store.sub_tasks@.len() && #[trigger] store.sub_tasks@[j].id
                                == sub_task_id && store.sub_tasks@[j].task_id == task_id
                                && store.sub_tasks@[j].user_id == user_id;
                        if (i as int) < j {
                            assert(store.sub_tasks@[i as int].id != store.sub_tasks@[j].id);
                        } else if j < i {
                            assert(store.sub_tasks@[j].id != store.sub_tasks@[i as int].id);
                        }
                    }
                }
                None
            }
        },
        None => None,
    }
}

/// `new` is the subtask `st` after an update at `now`: each given field
/// takes its new value, the others stay, and the update time is `now`.
pub open spec fn subtask_updated(
    st: SubTask,
    new: SubTask,
    title: Option<Seq<char>>,
    description: Option<Seq<char>>,
    completed: Option<bool>,
    progress: Option<Progress>,
    priority: Option<Priority>,
    created: Option<Timestamp>,
    due: Option<Timestamp>,
    now: Timestamp,
) -> bool {
    &&& new.id == st.id
    &&& new.task_id == st.task_id
    &&& new.user_id == st.user_id
    &&& match title {
        Some(t) => new.title@ == t,
        None => new.title == st.title,
    }
    &&& match description {
        Some(d) => new.description is Some && new.description.unwrap()@ == d,
        None => new.description == st.description,
    }
    &&& new.completed == match completed {
        Some(c) => c,
        None => st.completed,
    }
    &&& new.progress == match progress {
        Some(p) => p,
        None => st.progress,
    }
    &&& new.priority == match priority {
        Some(p) => p,
        None => st.priority,
    }
    &&& new.created_at == match created {
        Some(c) => c,
        None => st.created_at,
    }
    &&& new.due_date == match due {
        Some(d) => Some(d),
        None => st.due_date,
    }
    &&& new.updated_at == now
}

fn text_or(given: Option<&str>, current: &String) -> (r: String)
    ensures
        match given {
            Some(t) => r@ == t@,
            None => r == *current,
        },
{
    match given {
        Some(t) => t.to_owned(),
        None => current.clone(),
    }
}

/// Changes the subtask `sub_task_id` of the task `task_id` on behalf of its
/// creator `user_id`. Given dates are resolved first (creation date, then
/// due date); a subtask that does not match all three keys is `NotFound`,
/// whether absent or another's. Present `assigned_users` (without repeats)
/// replace the whole set of assignees. Nothing changes unless every check
/// passes.
pub fn update_subtask(
    store: &mut Store,
    sub_task_id_param: i32,
    task_id: i32,
    user_id: i32,
    title: Option<&str>,
    description: Option<&str>,
    completed: Option<bool>,
    progress: Option<Progress>,
    priority: Option<Priority>,
    created_at: Option<String>,
    due_date: Option<String>,
    assigned_users: Option<Vec<i32>>,
    now: Timestamp,
) -> (r: Result<SubTaskWithAssignedUsers, DatabaseError>)
    requires
        old(store).wf(),
        now.wf(),
    ensures
        final(store).wf(),
        match update_created_at_outcome(text_of(created_at), now) {
            Err(k) => (r matches Err(e) && is_date_error(e, k, text_of(created_at))),
            Ok(created) => match due_date_outcome(text_of(due_date), now) {
                Err(k) => (r matches Err(e) && is_date_error(e, k, text_of(due_date))),
                Ok(due) => if !matches_subtask(*old(store), sub_task_id_param, task_id, user_id) {
                    (r matches Err(DatabaseError::NotFound))
                } else if repeats(assigned_users) {
                    (r matches Err(DatabaseError::DuplicateAssignee))
                } else {
                    (r matches Ok(out) && (exists|i: int|
                        0 <= i < old(store).sub_tasks@.len() && #[trigger] old(store).sub_tasks@[i].id
                            == sub_task_id_param && final(store).sub_tasks@ == old(
                            store,
                        ).sub_tasks@.update(i, out.sub_task) && subtask_updated(
                            old(store).sub_tasks@[i],
                            out.sub_task,
                            str_text(title),
                            str_text(description),
                            completed,
                            progress,
                            priority,
                            created,
                            due,
                            now,
                        )) && final(store).subtask_assignees@ == (match assigned_users {
                        Some(v) => without_subtask_assignees(
                            old(store).subtask_assignees@,
                            sub_task_id_param,
                        ) + subtask_assignee_rows(sub_task_id_param, task_id, v@),
                        None => old(store).subtask_assignees@,
                    }) && out.assignees@ == subtask_assignee_ids(
                        final(store).subtask_assignees@,
                        sub_task_id_param,
                    ) && (assigned_users matches Some(v) ==> out.assignees@ == v@) && out.task_id
                        == task_id && out.assigned_at == now)
                },
            },
        },
        r is Err ==> *final(store) == *old(store),
        keeps_projects(*old(store), *final(store)),
        keeps_tasks(*old(store), *final(store)),
        keeps_task_access(*old(store), *final(store)),
        keeps_task_assignees(*old(store), *final(store)),
        keeps_meetings(*old(store), *final(store)),
        final(store).next_sub_task_id == old(store).next_sub_task_id,
{
    let created = match created_at {
        Some(s) => match check_created_at(Some(s), now) {
            Ok(c) => Some(c),
            Err(e) => {
                return Err(DatabaseError::InvalidTaskDate(e));
            },
        },
        None => None,
    };
    let due = match check_due_date(due_date, now) {
        Ok(d) => d,
        Err(e) => {
            return Err(DatabaseError::InvalidTaskDate(e));
        },
    };
    let i = match find_owned_subtask(store, sub_task_id_param, task_id, user_id) {
        Some(i) => i,
        None => {
            return Err(DatabaseError::NotFound);
        },
    };
    if let Some(v) = &assigned_users {
        if has_repeats(v) {
            return Err(DatabaseError::DuplicateAssignee);
        }
    }
    let cur = store.sub_tasks[i].duplicate();
    let new_title = text_or(title, &cur.title);
    let new_description = match description {
        Some(d) => Some(d.to_owned()),
        None => cur.description,
    };
    let updated = SubTask {
        id: cur.id,
        task_id: cur.task_id,
        title: new_title,
        description: new_description,
        created_at: match created {
            Some(c) => c,
            None => cur.created_at,
        },
        updated_at: now,
        due_date: match due {
            Some(d) => Some(d),
            None => cur.due_date,
        },
        priority: match priority {
            Some(p) => p,
            None => cur.priority,
        },
        progress: match progress {
            Some(p) => p,
            None => cur.progress,
        },
        user_id: cur.user_id,
        completed: match completed {
            Some(c) => c,
            None => cur.completed,
        },
    };
    let out = updated.duplicate();
    store.sub_tasks.set(i, updated);
    match assigned_users {
        Some(v) => {
            replace_subtask_assignees(&mut store.subtask_assignees, sub_task_id_param, task_id, &v);
            proof {
                lemma_subtask_replacement(
                    old(store).subtask_assignees@,
                    sub_task_id_param,
                    task_id,
                    v@,
                );
                lemma_subtask_replacement_unique(
                    old(store).subtask_assignees@,
                    sub_task_id_param,
                    task_id,
                    v@,
                    old(store).next_sub_task_id,
                );
            }
        },
        None => {},
    }
    let assignees = collect_subtask_assignees(&store.subtask_assignees, sub_task_id_param);
    Ok(SubTaskWithAssignedUsers { sub_task: out, assignees, task_id, assigned_at: now })
}

/// Removing one row keeps the subtask keys unique and below the next key.
proof fn lemma_sub_task_keys_remove(s: Seq<SubTask>, next: i32, i: int)
    requires
        sub_task_keys_ok(s, next),
        0 <= i < s.len(),
    ensures
        sub_task_keys_ok(s.remove(i), next),
{
    let r = s.remove(i);
    assert forall|k: int| 0 <= k < r.len() implies r[k] == if k < i { s[k] } else { s[k + 1] } by {}
    assert forall|a: int, b: int| 0 <= a < b < r.len() implies #[trigger] r[a].id != #[trigger] r[b].id by {
        let a2 = if a < i { a } else { a + 1 };
        let b2 = if b < i { b } else { b + 1 };
        assert(r[a] == s[a2] && r[b] == s[b2] && a2 < b2);
    }
}

/// Deletes the subtask `sub_task_id_param` of the task `task_id` on behalf of
/// its creator `user_id`, with all its assignment rows. A subtask that does
/// not match all three keys is `NotFound`, whether absent or another's.
pub fn delete_subtask(store: &mut Store, sub_task_id_param: i32, task_id: i32, user_id: i32) -> (r:
    Result<(), DatabaseError>)
    requires
        old(store).wf(),
    ensures
        final(store).wf(),
        r is Ok <==> matches_subtask(*old(store), sub_task_id_param, task_id, user_id),
        r is Ok ==> (exists|i: int|
            0 <= i < old(store).sub_tasks@.len() && #[trigger] old(store).sub_tasks@[i].id
                == sub_task_id_param && final(store).sub_tasks@ == old(store).sub_tasks@.remove(i))
            && final(store).subtask_assignees@ == without_subtask_assignees(
            old(store).subtask_assignees@,
            sub_task_id_param,
        ),
        r is Err ==> (r matches Err(DatabaseError::NotFound)) && *final(store) == *old(store),
        keeps_projects(*old(store), *final(store)),
        keeps_tasks(*old(store), *final(store)),
        keeps_task_access(*old(store), *final(store)),
        keeps_task_assignees(*old(store), *final(store)),
        keeps_meetings(*old(store), *final(store)),
        final(store).next_sub_task_id == old(store).next_sub_task_id,
{
    let i = match find_owned_subtask(store, sub_task_id_param, task_id, user_id) {
        Some(i) => i,
        None => {
            return Err(DatabaseError::NotFound);
        },
    };
    proof {
        lemma_subtask_clear_unique(
            store.subtask_assignees@,
            sub_task_id_param,
            store.next_sub_task_id,
        );
    }
    clear_subtask_assignees(&mut store.subtask_assignees, sub_task_id_param);
    proof {
        lemma_sub_task_keys_remove(store.sub_tasks@, store.next_sub_task_id, i as int);
    }
    store.sub_tasks.remove(i);
    Ok(())
}

} // verus!

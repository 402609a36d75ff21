use vstd::prelude::*;

use crate::error::DatabaseError;
use crate::models::{Project, Task, TaskAccess};
use crate::store::{
    has_project, has_task, keeps_meetings, keeps_projects, keeps_sub_tasks,
    keeps_subtask_assignees, keeps_task_assignees, keeps_tasks, Store,
};

verus! {

/// `user_id` created the task with key `task_id`.
pub open spec fn owns_task(s: Store, task_id: i32, user_id: i32) -> bool {
    exists|i: int|
        0 <= i < s.tasks@.len() && #[trigger] s.tasks@[i].id == task_id && s.tasks@[i].user_id
            == Some(user_id)
}

/// `user_id` holds an explicit access grant on the task with key `task_id`.
pub open spec fn has_grant(s: Store, task_id: i32, user_id: i32) -> bool {
    exists|k: int|
        0 <= k < s.task_access@.len() && #[trigger] s.task_access@[k] == (TaskAccess {
            task_id,
            user_id,
        })
}

/// `user_id` created the project with key `project_id`.
pub open spec fn owns_project(s: Store, project_id: i32, user_id: i32) -> bool {
    exists|i: int|
        0 <= i < s.projects@.len() && #[trigger] s.projects@[i].id == project_id
            && s.projects@[i].user_id == user_id
}

/// `user_id` holds an access grant on some task of the project `project_id`.
pub open spec fn has_project_grant(s: Store, project_id: i32, user_id: i32) -> bool {
    exists|k: int, i: int|
        0 <= k < s.task_access@.len() && 0 <= i < s.tasks@.len() && (#[trigger] s.task_access@[k]).user_id
            == user_id && (#[trigger] s.tasks@[i]).id == s.task_access@[k].task_id
            && s.tasks@[i].project_id == project_id
}

/// Whether `user_id` created the task `task_id`.
pub fn user_owns_task(store: &Store, task_id: i32, user_id: i32) -> (r: bool)
    requires
        store.wf(),
    ensures
        r == owns_task(*store, task_id, user_id),
{
    match store.find_task(task_id) {
        Some(i) => {
            let r = store.tasks[i].user_id == Some(user_id);
            proof {
                if !r && owns_task(*store, task_id, user_id) {
                    let j = choose|j: int|
                        0 <= j < store.tasks@.len() && #[trigger] store.tasks@[j].id == task_id
                            && store.tasks@[j].user_id == Some(user_id);
                    if (i as int) < j {
                        assert(store.tasks@[i as int].id != store.tasks@[j].id);
                    } else {
                        assert(store.tasks@[j].id != store.tasks@[i as int].id);
                    }
                }
            }
            r
        },
        None => false,
    }
}

/// Whether `user_id` created the project `project_id`.
pub fn user_owns_project(store: &Store, project_id: i32, user_id: i32) -> (r: bool)
    requires
        store.wf(),
    ensures
        r == owns_project(*store, project_id, user_id),
{
    match store.find_project(project_id) {
        Some(i) => {
            let r = store.projects[i].user_id == user_id;
            proof {
                if !r && owns_project(*store, project_id, user_id) {
                    let j = choose|j: int|
                        0 <= j < store.projects@.len() && #[trigger] store.projects@[j].id
                            == project_id && store.projects@[j].user_id == user_id;
                    if (i as int) < j {
                        assert(store.projects@[i as int].id != store.projects@[j].id);
                    } else {
                        assert(store.projects@[j].id != store.projects@[i as int].id);
                    }
                }
            }
            r
        },
        None => false,
    }
}

/// Finds whether `user_id` holds a grant on the task `task_id`.
fn find_grant(store: &Store, task_id: i32, user_id: i32) -> (r: bool)
    ensures
        r == has_grant(*store, task_id, user_id),
{
    let mut k: usize = 0;
    while k < store.task_access.len()
        invariant
            k <= store.task_access@.len(),
            forall|j: int|
                0 <= j < k ==> #[trigger] store.task_access@[j] != (TaskAccess { task_id, user_id }),
        decreases store.task_access@.len() - k,
    {
        let g = store.task_access[k];
        if g.task_id == task_id && g.user_id == user_id {
            return true;
        }
        k += 1;
    }
    false
}

/// The task `task_id`, where `user_id` created it or holds an access grant on
/// it. Ownership is checked first; a grant on a task that no longer exists
/// gives `NotFound`.
pub fn validate_task_ownership(store: &Store, task_id: i32, user_id: i32) -> (r: Result<
    Task,
    DatabaseError,
>)
    requires
        store.wf(),
    ensures
        r is Ok <==> has_task(store.tasks@, task_id) && (owns_task(*store, task_id, user_id)
            || has_grant(*store, task_id, user_id)),
        r matches Ok(t) ==> exists|i: int|
            0 <= i < store.tasks@.len() && #[trigger] store.tasks@[i].id == task_id && t
                == store.tasks@[i],
        !owns_task(*store, task_id, user_id) && !has_grant(*store, task_id, user_id) ==> (
        r matches Err(DatabaseError::PermissionDenied)),
        !has_task(store.tasks@, task_id) && has_grant(*store, task_id, user_id) ==> (
        r matches Err(DatabaseError::NotFound)),
{
    let found = store.find_task(task_id);
    if let Some(i) = found {
        if store.tasks[i].user_id == Some(user_id) {
            return Ok(store.tasks[i].duplicate());
        }
        assert(!owns_task(*store, task_id, user_id)) by {
            if owns_task(*store, task_id, user_id) {
                let j = choose|j: int|
                    0 <= j < store.tasks@.len() && #[trigger] store.tasks@[j].id == task_id
                        && store.tasks@[j].user_id == Some(user_id);
                assert(i != j);
                if (i as int) < j {
                    assert(store.tasks@[i as int].id != store.tasks@[j].id);
                } else {
                    assert(store.tasks@[j].id != store.tasks@[i as int].id);
                }
            }
        }
    }
    if !find_grant(store, task_id, user_id) {
        return Err(DatabaseError::PermissionDenied);
    }
    match found {
        Some(i) => Ok(store.tasks[i].duplicate()),
        None => Err(DatabaseError::NotFound),
    }
}

/// The project `project_id`, where `user_id` created it or holds an access
/// grant on one of its tasks. Ownership is checked first; a grant through a
/// project that no longer exists gives `NotFound`.
pub fn validate_user_project_access(store: &Store, user_id: i32, project_id: i32) -> (r: Result<
    Project,
    DatabaseError,
>)
    requires
        store.wf(),
    ensures
        r is Ok <==> has_project(store.projects@, project_id) && (owns_project(
            *store,
            project_id,
            user_id,
        ) || has_project_grant(*store, project_id, user_id)),
        r matches Ok(p) ==> exists|i: int|
            0 <= i < store.projects@.len() && #[trigger] store.projects@[i].id == project_id && p
                == store.projects@[i],
        !owns_project(*store, project_id, user_id) && !has_project_grant(
            *store,
            project_id,
            user_id,
        ) ==> (r matches Err(DatabaseError::PermissionDenied)),
        !has_project(store.projects@, project_id) && has_project_grant(
            *store,
            project_id,
            user_id,
        ) ==> (r matches Err(DatabaseError::NotFound)),
{
    let found = store.find_project(project_id);
    if let Some(i) = found {
        if store.projects[i].user_id == user_id {
            return Ok(store.projects[i].duplicate());
        }
        assert(!owns_project(*store, project_id, user_id)) by {
            if owns_project(*store, project_id, user_id) {
                let j = choose|j: int|
                    0 <= j < store.projects@.len() && #[trigger] store.projects@[j].id
                        == project_id && store.projects@[j].user_id == user_id;
                assert(i != j);
                if (i as int) < j {
                    assert(store.projects@[i as int].id != store.projects@[j].id);
                } else {
                    assert(store.projects@[j].id != store.projects@[i as int].id);
                }
            }
        }
    }
    let mut granted = false;
    let mut k: usize = 0;
    while k < store.task_access.len() && !granted
        invariant
            store.wf(),
            k <= store.task_access@.len(),
            granted ==> has_project_grant(*store, project_id, user_id),
            !granted ==> forall|j: int, i: int|
                0 <= j < k && 0 <= i < store.tasks@.len() ==> !((#[trigger] store.task_access@[j]).user_id
                    == user_id && (#[trigger] store.tasks@[i]).id == store.task_access@[j].task_id
                    && store.tasks@[i].project_id == project_id),
        decreases store.task_access@.len() - k,
    {
        let g = store.task_access[k];
        if g.user_id == user_id {
            if let Some(i) = store.find_task(g.task_id) {
                if store.tasks[i].project_id == project_id {
                    granted = true;
                    assert(store.task_access@[k as int].user_id == user_id && store.tasks@[i as int].id
                        == store.task_access@[k as int].task_id);
                }
                assert forall|i2: int| !granted && 0 <= i2 < store.tasks@.len() && (#[trigger] store.tasks@[i2]).id
                    == g.task_id implies store.tasks@[i2].project_id != project_id by {
                    if i2 != i {
                        if (i as int) < i2 {
                            assert(store.tasks@[i as int].id != store.tasks@[i2].id);
                        } else {
                            assert(store.tasks@[i2].id != store.tasks@[i as int].id);
                        }
                    }
                }
            }
        }
        k += 1;
    }
    if !granted {
        return Err(DatabaseError::PermissionDenied);
    }
    match found {
        Some(i) => Ok(store.projects[i].duplicate()),
        None => Err(DatabaseError::NotFound),
    }
}

/// Lets `grantee_id` act on the task `task_id`; only the task's creator may
/// grant access.
pub fn grant_task_access(store: &mut Store, task_id: i32, owner_id: i32, grantee_id: i32) -> (r:
    Result<(), DatabaseError>)
    requires
        old(store).wf(),
    ensures
        final(store).wf(),
        r is Ok <==> owns_task(*old(store), task_id, owner_id),
        r is Ok ==> final(store).task_access@ == old(store).task_access@.push(
            TaskAccess { task_id, user_id: grantee_id },
        ),
        r is Err ==> (r matches Err(DatabaseError::PermissionDenied)) && *final(store) == *old(
            store,
        ),
        keeps_projects(*old(store), *final(store)),
        keeps_tasks(*old(store), *final(store)),
        keeps_task_assignees(*old(store), *final(store)),
        keeps_sub_tasks(*old(store), *final(store)),
        keeps_subtask_assignees(*old(store), *final(store)),
        keeps_meetings(*old(store), *final(store)),
{
    let owned = user_owns_task(store, task_id, owner_id);
    if !owned {
        return Err(DatabaseError::PermissionDenied);
    }
    store.task_access.push(TaskAccess { task_id, user_id: grantee_id });
    Ok(())
}

} // verus!

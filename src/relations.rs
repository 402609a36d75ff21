use vstd::prelude::*;

use crate::models::{
    response_of, Meeting, MeetingResponse, SubTask, SubTaskAssignee, Task, TaskAssignee,
};
use crate::timestamp::Timestamp;

verus! {

/// The tasks created by `user_id`, in table order.
pub open spec fn tasks_of_user(s: Seq<Task>, user_id: i32) -> Seq<Task>
    decreases s.len(),
{
    if s.len() == 0 {
        Seq::empty()
    } else if s.last().user_id == Some(user_id) {
        tasks_of_user(s.drop_last(), user_id).push(s.last())
    } else {
        tasks_of_user(s.drop_last(), user_id)
    }
}

/// The subtasks of the task `task_id`, in table order.
pub open spec fn subtasks_of_task(s: Seq<SubTask>, task_id: i32) -> Seq<SubTask>
    decreases s.len(),
{
    if s.len() == 0 {
        Seq::empty()
    } else if s.last().task_id == task_id {
        subtasks_of_task(s.drop_last(), task_id).push(s.last())
    } else {
        subtasks_of_task(s.drop_last(), task_id)
    }
}

/// The subtasks created by `user_id`, in table order.
pub open spec fn subtasks_of_user(s: Seq<SubTask>, user_id: i32) -> Seq<SubTask>
    decreases s.len(),
{
    if s.len() == 0 {
        Seq::empty()
    } else if s.last().user_id == user_id {
        subtasks_of_user(s.drop_last(), user_id).push(s.last())
    } else {
        subtasks_of_user(s.drop_last(), user_id)
    }
}

/// The meetings of `user_id` as they are answered, in table order.
pub open spec fn meeting_responses_of(s: Seq<Meeting>, user_id: i32) -> Seq<MeetingResponse>
    decreases s.len(),
{
    if s.len() == 0 {
        Seq::empty()
    } else if s.last().user_id == user_id {
        meeting_responses_of(s.drop_last(), user_id).push(response_of(s.last()))
    } else {
        meeting_responses_of(s.drop_last(), user_id)
    }
}

/// The users assigned to the task `task_id`, in table order.
pub open spec fn task_assignee_ids(rows: Seq<TaskAssignee>, task_id: i32) -> Seq<i32>
    decreases rows.len(),
{
    if rows.len() == 0 {
        Seq::empty()
    } else if rows.last().task_id == task_id {
        task_assignee_ids(rows.drop_last(), task_id).push(rows.last().user_id)
    } else {
        task_assignee_ids(rows.drop_last(), task_id)
    }
}

/// The assignment rows of every task but `task_id`.
pub open spec fn without_task_assignees(rows: Seq<TaskAssignee>, task_id: i32) -> Seq<
    TaskAssignee,
>
    decreases rows.len(),
{
    if rows.len() == 0 {
        Seq::empty()
    } else if rows.last().task_id != task_id {
        without_task_assignees(rows.drop_last(), task_id).push(rows.last())
    } else {
        without_task_assignees(rows.drop_last(), task_id)
    }
}

/// One assignment row of the task `task_id` for each of `users`, in order.
pub open spec fn task_assignee_rows(task_id: i32, users: Seq<i32>, at: Timestamp) -> Seq<
    TaskAssignee,
>
    decreases users.len(),
{
    if users.len() == 0 {
        Seq::empty()
    } else {
        task_assignee_rows(task_id, users.drop_last(), at).push(
            TaskAssignee { task_id, user_id: users.last(), assigned_at: Some(at) },
        )
    }
}

/// The users assigned to the subtask `sub_task_id`, in table order.
pub open spec fn subtask_assignee_ids(rows: Seq<SubTaskAssignee>, sub_task_id: i32) -> Seq<i32>
    decreases rows.len(),
{
    if rows.len() == 0 {
        Seq::empty()
    } else if rows.last().sub_task_id == sub_task_id {
        subtask_assignee_ids(rows.drop_last(), sub_task_id).push(rows.last().user_id)
    } else {
        subtask_assignee_ids(rows.drop_last(), sub_task_id)
    }
}

/// The assignment rows of every subtask but `sub_task_id`.
pub open spec fn without_subtask_assignees(rows: Seq<SubTaskAssignee>, sub_task_id: i32) -> Seq<
    SubTaskAssignee,
>
    decreases rows.len(),
{
    if rows.len() == 0 {
        Seq::empty()
    } else if rows.last().sub_task_id != sub_task_id {
        without_subtask_assignees(rows.drop_last(), sub_task_id).push(rows.last())
    } else {
        without_subtask_assignees(rows.drop_last(), sub_task_id)
    }
}

/// One assignment row of the subtask `sub_task_id` (of task `task_id`) for
/// each of `users`, in order.
pub open spec fn subtask_assignee_rows(sub_task_id: i32, task_id: i32, users: Seq<i32>) -> Seq<
    SubTaskAssignee,
>
    decreases users.len(),
{
    if users.len() == 0 {
        Seq::empty()
    } else {
        subtask_assignee_rows(sub_task_id, task_id, users.drop_last()).push(
            SubTaskAssignee { sub_task_id, user_id: users.last(), task_id },
        )
    }
}

pub proof fn lemma_subtask_ids_append(a: Seq<SubTaskAssignee>, b: Seq<SubTaskAssignee>, id: i32)
    ensures
        subtask_assignee_ids(a + b, id) == subtask_assignee_ids(a, id) + subtask_assignee_ids(
            b,
            id,
        ),
    decreases b.len(),
{
    if b.len() == 0 {
        assert(a + b =~= a);
        assert(subtask_assignee_ids(a, id) + subtask_assignee_ids(b, id) =~= subtask_assignee_ids(
            a,
            id,
        ));
    } else {
        assert((a + b).drop_last() =~= a + b.drop_last());
        lemma_subtask_ids_append(a, b.drop_last(), id);
        if b.last().sub_task_id == id {
            assert(subtask_assignee_ids(a, id) + subtask_assignee_ids(b.drop_last(), id).push(
                b.last().user_id,
            ) =~= (subtask_assignee_ids(a, id) + subtask_assignee_ids(b.drop_last(), id)).push(
                b.last().user_id,
            ));
        }
    }
}

pub proof fn lemma_subtask_ids_without(rows: Seq<SubTaskAssignee>, id: i32)
    ensures
        subtask_assignee_ids(without_subtask_assignees(rows, id), id) == Seq::<i32>::empty(),
    decreases rows.len(),
{
    if rows.len() > 0 {
        lemma_subtask_ids_without(rows.drop_last(), id);
        let w = without_subtask_assignees(rows.drop_last(), id);
        if rows.last().sub_task_id != id {
            assert(w.push(rows.last()).drop_last() =~= w);
        }
    }
}

pub proof fn lemma_subtask_ids_rows(id: i32, task_id: i32, users: Seq<i32>)
    ensures
        subtask_assignee_ids(subtask_assignee_rows(id, task_id, users), id) == users,
    decreases users.len(),
{
    if users.len() == 0 {
        assert(subtask_assignee_ids(subtask_assignee_rows(id, task_id, users), id) =~= users);
    } else {
        lemma_subtask_ids_rows(id, task_id, users.drop_last());
        let w = subtask_assignee_rows(id, task_id, users.drop_last());
        let row = SubTaskAssignee { sub_task_id: id, user_id: users.last(), task_id };
        assert(w.push(row).drop_last() =~= w);
        assert(users.drop_last().push(users.last()) =~= users);
    }
}

/// Replacing the assignment rows of one subtask leaves it assigned to exactly
/// the new users, in the order given.
pub proof fn lemma_subtask_replacement(
    rows: Seq<SubTaskAssignee>,
    sub_task_id: i32,
    task_id: i32,
    users: Seq<i32>,
)
    ensures
        subtask_assignee_ids(
            without_subtask_assignees(rows, sub_task_id) + subtask_assignee_rows(
                sub_task_id,
                task_id,
                users,
            ),
            sub_task_id,
        ) == users,
{
    lemma_subtask_ids_append(
        without_subtask_assignees(rows, sub_task_id),
        subtask_assignee_rows(sub_task_id, task_id, users),
        sub_task_id,
    );
    lemma_subtask_ids_without(rows, sub_task_id);
    lemma_subtask_ids_rows(sub_task_id, task_id, users);
    assert(Seq::<i32>::empty() + users =~= users);
}

pub proof fn lemma_task_ids_append(a: Seq<TaskAssignee>, b: Seq<TaskAssignee>, id: i32)
    ensures
        task_assignee_ids(a + b, id) == task_assignee_ids(a, id) + task_assignee_ids(b, id),
    decreases b.len(),
{
    if b.len() == 0 {
        assert(a + b =~= a);
        assert(task_assignee_ids(a, id) + task_assignee_ids(b, id) =~= task_assignee_ids(a, id));
    } else {
        assert((a + b).drop_last() =~= a + b.drop_last());
        lemma_task_ids_append(a, b.drop_last(), id);
        if b.last().task_id == id {
            assert(task_assignee_ids(a, id) + task_assignee_ids(b.drop_last(), id).push(
                b.last().user_id,
            ) =~= (task_assignee_ids(a, id) + task_assignee_ids(b.drop_last(), id)).push(
                b.last().user_id,
            ));
        }
    }
}

pub proof fn lemma_task_ids_without(rows: Seq<TaskAssignee>, id: i32)
    ensures
        task_assignee_ids(without_task_assignees(rows, id), id) == Seq::<i32>::empty(),
    decreases rows.len(),
{
    if rows.len() > 0 {
        lemma_task_ids_without(rows.drop_last(), id);
        let w = without_task_assignees(rows.drop_last(), id);
        if rows.last().task_id != id {
            assert(w.push(rows.last()).drop_last() =~= w);
        }
    }
}

pub proof fn lemma_task_ids_rows(id: i32, users: Seq<i32>, at: Timestamp)
    ensures
        task_assignee_ids(task_assignee_rows(id, users, at), id) == users,
    decreases users.len(),
{
    if users.len() == 0 {
        assert(task_assignee_ids(task_assignee_rows(id, users, at), id) =~= users);
    } else {
        lemma_task_ids_rows(id, users.drop_last(), at);
        let w = task_assignee_rows(id, users.drop_last(), at);
        let row = TaskAssignee { task_id: id, user_id: users.last(), assigned_at: Some(at) };
        assert(w.push(row).drop_last() =~= w);
        assert(users.drop_last().push(users.last()) =~= users);
    }
}

/// Replacing the assignment rows of one task leaves it assigned to exactly
/// the new users, in the order given.
pub proof fn lemma_task_replacement(
    rows: Seq<TaskAssignee>,
    task_id: i32,
    users: Seq<i32>,
    at: Timestamp,
)
    ensures
        task_assignee_ids(
            without_task_assignees(rows, task_id) + task_assignee_rows(task_id, users, at),
            task_id,
        ) == users,
{
    lemma_task_ids_append(
        without_task_assignees(rows, task_id),
        task_assignee_rows(task_id, users, at),
        task_id,
    );
    lemma_task_ids_without(rows, task_id);
    lemma_task_ids_rows(task_id, users, at);
    assert(Seq::<i32>::empty() + users =~= users);
}

/// No two task assignment rows pair the same task with the same user.
pub open spec fn task_pairs_unique(s: Seq<TaskAssignee>) -> bool {
    forall|i: int, j: int|
        0 <= i < j < s.len() ==> !(#[trigger] s[i].task_id == #[trigger] s[j].task_id
            && s[i].user_id == s[j].user_id)
}

/// No two subtask assignment rows pair the same subtask with the same user.
pub open spec fn subtask_pairs_unique(s: Seq<SubTaskAssignee>) -> bool {
    forall|i: int, j: int|
        0 <= i < j < s.len() ==> !(#[trigger] s[i].sub_task_id == #[trigger] s[j].sub_task_id
            && s[i].user_id == s[j].user_id)
}

/// A given list of assignees names some user twice.
pub open spec fn repeats(users: Option<Vec<i32>>) -> bool {
    match users {
        Some(v) => !v@.no_duplicates(),
        None => false,
    }
}

proof fn lemma_without_task_assignees(rows: Seq<TaskAssignee>, id: i32)
    ensures
        forall|k: int|
            0 <= k < without_task_assignees(rows, id).len() ==> (#[trigger] without_task_assignees(
                rows,
                id,
            )[k]).task_id != id && exists|m: int|
                0 <= m < rows.len() && rows[m] == without_task_assignees(rows, id)[k],
        task_pairs_unique(rows) ==> task_pairs_unique(without_task_assignees(rows, id)),
    decreases rows.len(),
{
    if rows.len() > 0 {
        let d = rows.drop_last();
        lemma_without_task_assignees(d, id);
        let w0 = without_task_assignees(d, id);
        let w = without_task_assignees(rows, id);
        assert forall|k: int| 0 <= k < w.len() implies (#[trigger] w[k]).task_id != id && exists|
            m: int,
        | 0 <= m < rows.len() && rows[m] == w[k] by {
            if k < w0.len() {
                let m = choose|m: int| 0 <= m < d.len() && d[m] == w0[k];
                assert(rows[m] == w[k]);
            } else {
                assert(rows[rows.len() - 1] == w[k]);
            }
        }
        if task_pairs_unique(rows) {
            assert forall|i: int, j: int| 0 <= i < j < w.len() implies !(#[trigger] w[i].task_id
                == #[trigger] w[j].task_id && w[i].user_id == w[j].user_id) by {
                if j < w0.len() {
                    assert(w[i] == w0[i] && w[j] == w0[j]);
                } else {
                    let m = choose|m: int| 0 <= m < d.len() && d[m] == w0[i];
                    assert(rows[m] == w[i] && rows[rows.len() - 1] == w[j]);
                }
            }
        }
    }
}

proof fn lemma_task_assignee_rows_shape(id: i32, users: Seq<i32>, at: Timestamp)
    ensures
        task_assignee_rows(id, users, at).len() == users.len(),
        forall|k: int|
            0 <= k < users.len() ==> #[trigger] task_assignee_rows(id, users, at)[k] == (
            TaskAssignee { task_id: id, user_id: users[k], assigned_at: Some(at) }),
    decreases users.len(),
{
    if users.len() > 0 {
        lemma_task_assignee_rows_shape(id, users.drop_last(), at);
    }
}

/// Replacing the assignees of a task by a list without repeats keeps every
/// (task, user) pair unique.
pub proof fn lemma_task_replacement_unique(
    rows: Seq<TaskAssignee>,
    task_id: i32,
    users: Seq<i32>,
    at: Timestamp,
)
    requires
        task_pairs_unique(rows),
        users.no_duplicates(),
    ensures
        task_pairs_unique(
            without_task_assignees(rows, task_id) + task_assignee_rows(task_id, users, at),
        ),
{
    lemma_without_task_assignees(rows, task_id);
    lemma_task_assignee_rows_shape(task_id, users, at);
    let a = without_task_assignees(rows, task_id);
    let b = task_assignee_rows(task_id, users, at);
    let c = a + b;
    assert forall|i: int, j: int| 0 <= i < j < c.len() implies !(#[trigger] c[i].task_id
        == #[trigger] c[j].task_id && c[i].user_id == c[j].user_id) by {
        if j < a.len() {
            assert(c[i] == a[i] && c[j] == a[j]);
        } else if i < a.len() {
            assert(c[i] == a[i] && c[j] == b[j - a.len()]);
        } else {
            assert(c[i] == b[i - a.len()] && c[j] == b[j - a.len()]);
        }
    }
}

proof fn lemma_without_subtask_assignees(rows: Seq<SubTaskAssignee>, id: i32)
    ensures
        forall|k: int|
            0 <= k < without_subtask_assignees(rows, id).len() ==> (
            #[trigger] without_subtask_assignees(rows, id)[k]).sub_task_id != id && exists|m: int|
                0 <= m < rows.len() && rows[m] == without_subtask_assignees(rows, id)[k],
        subtask_pairs_unique(rows) ==> subtask_pairs_unique(without_subtask_assignees(rows, id)),
    decreases rows.len(),
{
    if rows.len() > 0 {
        let d = rows.drop_last();
        lemma_without_subtask_assignees(d, id);
        let w0 = without_subtask_assignees(d, id);
        let w = without_subtask_assignees(rows, id);
        assert forall|k: int| 0 <= k < w.len() implies (#[trigger] w[k]).sub_task_id != id
            && exists|m: int| 0 <= m < rows.len() && rows[m] == w[k] by {
            if k < w0.len() {
                let m = choose|m: int| 0 <= m < d.len() && d[m] == w0[k];
                assert(rows[m] == w[k]);
            } else {
                assert(rows[rows.len() - 1] == w[k]);
            }
        }
        if subtask_pairs_unique(rows) {
            assert forall|i: int, j: int| 0 <= i < j < w.len() implies !(#[trigger] w[i].sub_task_id
                == #[trigger] w[j].sub_task_id && w[i].user_id == w[j].user_id) by {
                if j < w0.len() {
                    assert(w[i] == w0[i] && w[j] == w0[j]);
                } else {
                    let m = choose|m: int| 0 <= m < d.len() && d[m] == w0[i];
                    assert(rows[m] == w[i] && rows[rows.len() - 1] == w[j]);
                }
            }
        }
    }
}

proof fn lemma_subtask_assignee_rows_shape(id: i32, task_id: i32, users: Seq<i32>)
    ensures
        subtask_assignee_rows(id, task_id, users).len() == users.len(),
        forall|k: int|
            0 <= k < users.len() ==> #[trigger] subtask_assignee_rows(id, task_id, users)[k] == (
            SubTaskAssignee { sub_task_id: id, user_id: users[k], task_id }),
    decreases users.len(),
{
    if users.len() > 0 {
        lemma_subtask_assignee_rows_shape(id, task_id, users.drop_last());
    }
}

/// Adding rows for a subtask that has none, from a list without repeats,
/// keeps every (subtask, user) pair unique.
pub proof fn lemma_subtask_append_unique(
    rows: Seq<SubTaskAssignee>,
    sub_task_id: i32,
    task_id: i32,
    users: Seq<i32>,
)
    requires
        subtask_pairs_unique(rows),
        users.no_duplicates(),
        forall|k: int| 0 <= k < rows.len() ==> (#[trigger] rows[k]).sub_task_id != sub_task_id,
    ensures
        subtask_pairs_unique(rows + subtask_assignee_rows(sub_task_id, task_id, users)),
        subtask_assignee_rows(sub_task_id, task_id, users).len() == users.len(),
        forall|k: int|
            rows.len() <= k < rows.len() + users.len() ==> (#[trigger] (rows
                + subtask_assignee_rows(sub_task_id, task_id, users))[k]).sub_task_id
                == sub_task_id,
{
    lemma_subtask_assignee_rows_shape(sub_task_id, task_id, users);
    let b = subtask_assignee_rows(sub_task_id, task_id, users);
    let c = rows + b;
    assert forall|i: int, j: int| 0 <= i < j < c.len() implies !(#[trigger] c[i].sub_task_id
        == #[trigger] c[j].sub_task_id && c[i].user_id == c[j].user_id) by {
        if j < rows.len() {
            assert(c[i] == rows[i] && c[j] == rows[j]);
        } else if i < rows.len() {
            assert(c[i] == rows[i] && c[j] == b[j - rows.len()]);
        } else {
            assert(c[i] == b[i - rows.len()] && c[j] == b[j - rows.len()]);
        }
    }
}

/// Replacing the assignees of a subtask by a list without repeats keeps
/// every (subtask, user) pair unique, and every row's subtask key below
/// `next`.
pub proof fn lemma_subtask_replacement_unique(
    rows: Seq<SubTaskAssignee>,
    sub_task_id: i32,
    task_id: i32,
    users: Seq<i32>,
    next: i32,
)
    requires
        subtask_pairs_unique(rows),
        users.no_duplicates(),
        sub_task_id < next,
        forall|k: int| 0 <= k < rows.len() ==> (#[trigger] rows[k]).sub_task_id < next,
    ensures
        subtask_pairs_unique(
            without_subtask_assignees(rows, sub_task_id) + subtask_assignee_rows(
                sub_task_id,
                task_id,
                users,
            ),
        ),
        forall|k: int|
            0 <= k < (without_subtask_assignees(rows, sub_task_id) + subtask_assignee_rows(
                sub_task_id,
                task_id,
                users,
            )).len() ==> (#[trigger] (without_subtask_assignees(rows, sub_task_id)
                + subtask_assignee_rows(sub_task_id, task_id, users))[k]).sub_task_id < next,
{
    lemma_without_subtask_assignees(rows, sub_task_id);
    lemma_subtask_assignee_rows_shape(sub_task_id, task_id, users);
    let a = without_subtask_assignees(rows, sub_task_id);
    lemma_subtask_append_unique(a, sub_task_id, task_id, users);
    let c = a + subtask_assignee_rows(sub_task_id, task_id, users);
    assert forall|k: int| 0 <= k < c.len() implies (#[trigger] c[k]).sub_task_id < next by {
        if k < a.len() {
            let m = choose|m: int| 0 <= m < rows.len() && rows[m] == a[k];
            assert(c[k] == rows[m]);
        }
    }
}

/// Clearing the assignees of a subtask keeps every (subtask, user) pair
/// unique, and every row's subtask key below `next`.
pub proof fn lemma_subtask_clear_unique(rows: Seq<SubTaskAssignee>, sub_task_id: i32, next: i32)
    requires
        subtask_pairs_unique(rows),
        forall|k: int| 0 <= k < rows.len() ==> (#[trigger] rows[k]).sub_task_id < next,
    ensures
        subtask_pairs_unique(without_subtask_assignees(rows, sub_task_id)),
        forall|k: int|
            0 <= k < without_subtask_assignees(rows, sub_task_id).len() ==> (
            #[trigger] without_subtask_assignees(rows, sub_task_id)[k]).sub_task_id < next,
{
    lemma_without_subtask_assignees(rows, sub_task_id);
    let a = without_subtask_assignees(rows, sub_task_id);
    assert forall|k: int| 0 <= k < a.len() implies (#[trigger] a[k]).sub_task_id < next by {
        let m = choose|m: int| 0 <= m < rows.len() && rows[m] == a[k];
    }
}

/// Whether `users` names some user twice.
pub fn has_repeats(users: &Vec<i32>) -> (r: bool)
    ensures
        r == !users@.no_duplicates(),
{
    let mut i: usize = 0;
    while i < users.len()
        invariant
            i <= users@.len(),
            forall|a: int, b: int| 0 <= a < b < users@.len() && a < i ==> users@[a] != users@[b],
        decreases users@.len() - i,
    {
        let mut j: usize = i + 1;
        while j < users.len()
            invariant
                i < users@.len(),
                i + 1 <= j <= users@.len(),
                forall|a: int, b: int| 0 <= a < b < users@.len() && a < i ==> users@[a] != users@[b],
                forall|b: int| i < b < j ==> users@[i as int] != users@[b],
            decreases users@.len() - j,
        {
            if users[i] == users[j] {
                return true;
            }
            j += 1;
        }
        i += 1;
    }
    false
}

/// The users assigned to the task `task_id`.
pub(crate) fn collect_task_assignees(rows: &Vec<TaskAssignee>, task_id: i32) -> (r: Vec<i32>)
    ensures
        r@ == task_assignee_ids(rows@, task_id),
{
    let mut out: Vec<i32> = Vec::new();
    let mut i: usize = 0;
    while i < rows.len()
        invariant
            i <= rows@.len(),
            out@ == task_assignee_ids(rows@.take(i as int), task_id),
        decreases rows@.len() - i,
    {
        assert(rows@.take(i as int + 1).drop_last() =~= rows@.take(i as int));
        if rows[i].task_id == task_id {
            out.push(rows[i].user_id);
        }
        i += 1;
    }
    assert(rows@.take(rows@.len() as int) =~= rows@);
    out
}

/// The users assigned to the subtask `sub_task_id`.
pub(crate) fn collect_subtask_assignees(rows: &Vec<SubTaskAssignee>, sub_task_id: i32) -> (r: Vec<
    i32,
>)
    ensures
        r@ == subtask_assignee_ids(rows@, sub_task_id),
{
    let mut out: Vec<i32> = Vec::new();
    let mut i: usize = 0;
    while i < rows.len()
        invariant
            i <= rows@.len(),
            out@ == subtask_assignee_ids(rows@.take(i as int), sub_task_id),
        decreases rows@.len() - i,
    {
        assert(rows@.take(i as int + 1).drop_last() =~= rows@.take(i as int));
        if rows[i].sub_task_id == sub_task_id {
            out.push(rows[i].user_id);
        }
        i += 1;
    }
    assert(rows@.take(rows@.len() as int) =~= rows@);
    out
}

/// Makes `users` the whole set of assignees of the task `task_id`: its old
/// rows go, one new row per user comes last.
pub(crate) fn replace_task_assignees(
    rows: &mut Vec<TaskAssignee>,
    task_id: i32,
    users: &Vec<i32>,
    at: Timestamp,
)
    ensures
        final(rows)@ == without_task_assignees(old(rows)@, task_id) + task_assignee_rows(
            task_id,
            users@,
            at,
        ),
{
    let mut kept: Vec<TaskAssignee> = Vec::new();
    let mut i: usize = 0;
    while i < rows.len()
        invariant
            i <= rows@.len(),
            rows@ == old(rows)@,
            kept@ == without_task_assignees(rows@.take(i as int), task_id),
        decreases rows@.len() - i,
    {
        assert(rows@.take(i as int + 1).drop_last() =~= rows@.take(i as int));
        if rows[i].task_id != task_id {
            kept.push(rows[i]);
        }
        i += 1;
    }
    assert(rows@.take(rows@.len() as int) =~= rows@);
    let ghost base = kept@;
    let mut j: usize = 0;
    while j < users.len()
        invariant
            j <= users@.len(),
            base == without_task_assignees(old(rows)@, task_id),
            kept@ == base + task_assignee_rows(task_id, users@.take(j as int), at),
        decreases users@.len() - j,
    {
        assert(users@.take(j as int + 1).drop_last() =~= users@.take(j as int));
        kept.push(TaskAssignee { task_id, user_id: users[j], assigned_at: Some(at) });
        proof {
            let w = task_assignee_rows(task_id, users@.take(j as int), at);
            let row = TaskAssignee { task_id, user_id: users@[j as int], assigned_at: Some(at) };
            assert((base + w).push(row) =~= base + w.push(row));
        }
        j += 1;
    }
    assert(users@.take(users@.len() as int) =~= users@);
    *rows = kept;
}

/// Adds one assignment row of the subtask `sub_task_id` per user, after the
/// existing rows.
pub(crate) fn append_subtask_assignees(
    rows: &mut Vec<SubTaskAssignee>,
    sub_task_id: i32,
    task_id: i32,
    users: &Vec<i32>,
)
    ensures
        final(rows)@ == old(rows)@ + subtask_assignee_rows(sub_task_id, task_id, users@),
{
    let ghost base = rows@;
    let mut j: usize = 0;
    while j < users.len()
        invariant
            j <= users@.len(),
            base == old(rows)@,
            rows@ == base + subtask_assignee_rows(sub_task_id, task_id, users@.take(j as int)),
        decreases users@.len() - j,
    {
        assert(users@.take(j as int + 1).drop_last() =~= users@.take(j as int));
        rows.push(SubTaskAssignee { sub_task_id, user_id: users[j], task_id });
        proof {
            let w = subtask_assignee_rows(sub_task_id, task_id, users@.take(j as int));
            let row = SubTaskAssignee { sub_task_id, user_id: users@[j as int], task_id };
            assert((base + w).push(row) =~= base + w.push(row));
        }
        j += 1;
    }
    assert(users@.take(users@.len() as int) =~= users@);
}

/// Makes `users` the whole set of assignees of the subtask `sub_task_id`: its
/// old rows go, one new row per user comes last.
pub(crate) fn replace_subtask_assignees(
    rows: &mut Vec<SubTaskAssignee>,
    sub_task_id: i32,
    task_id: i32,
    users: &Vec<i32>,
)
    ensures
        final(rows)@ == without_subtask_assignees(old(rows)@, sub_task_id)
            + subtask_assignee_rows(sub_task_id, task_id, users@),
{
    let mut kept: Vec<SubTaskAssignee> = Vec::new();
    let mut i: usize = 0;
    while i < rows.len()
        invariant
            i <= rows@.len(),
            rows@ == old(rows)@,
            kept@ == without_subtask_assignees(rows@.take(i as int), sub_task_id),
        decreases rows@.len() - i,
    {
        assert(rows@.take(i as int + 1).drop_last() =~= rows@.take(i as int));
        if rows[i].sub_task_id != sub_task_id {
            kept.push(rows[i]);
        }
        i += 1;
    }
    assert(rows@.take(rows@.len() as int) =~= rows@);
    append_subtask_assignees(&mut kept, sub_task_id, task_id, users);
    *rows = kept;
}

/// Removes every assignment row of the subtask `sub_task_id`.
pub(crate) fn clear_subtask_assignees(rows: &mut Vec<SubTaskAssignee>, sub_task_id: i32)
    ensures
        final(rows)@ == without_subtask_assignees(old(rows)@, sub_task_id),
{
    let mut kept: Vec<SubTaskAssignee> = Vec::new();
    let mut i: usize = 0;
    while i < rows.len()
        invariant
            i <= rows@.len(),
            rows@ == old(rows)@,
            kept@ == without_subtask_assignees(rows@.take(i as int), sub_task_id),
        decreases rows@.len() - i,
    {
        assert(rows@.take(i as int + 1).drop_last() =~= rows@.take(i as int));
        if rows[i].sub_task_id != sub_task_id {
            kept.push(rows[i]);
        }
        i += 1;
    }
    assert(rows@.take(rows@.len() as int) =~= rows@);
    *rows = kept;
}

} // verus!

use vstd::prelude::*;

use crate::error::{DatabaseError, MeetingsError};
use crate::helpers::{check_meeting_dates, meeting_dates_outcome};
use crate::models::{response_of, Meeting, MeetingResponse};
use crate::relations::meeting_responses_of;
use crate::store::{
    keeps_projects, keeps_sub_tasks, keeps_subtask_assignees, keeps_task_access,
    keeps_task_assignees, keeps_tasks, meeting_keys_ok, Store,
};
use crate::timestamp::Timestamp;

verus! {

/// `r` is the refusal `e` of a meeting's dates.
pub open spec fn is_meeting_error(r: DatabaseError, e: MeetingsError) -> bool {
    match r {
        DatabaseError::InvalidMeetingDates(x) => x == e,
        _ => false,
    }
}

/// The meeting `meeting_id` exists and belongs to `user_id`.
pub open spec fn owns_meeting(s: Store, meeting_id: i32, user_id: i32) -> bool {
    exists|i: int|
        0 <= i < s.meetings@.len() && #[trigger] s.meetings@[i].id == meeting_id
            && s.meetings@[i].user_id == user_id
}

/// Creates a meeting of `user_id_val` from `start_date_val` to `end_date_val`,
/// created at `now`, once the dates pass the three meeting rules.
pub fn create_meeting(
    store: &mut Store,
    user_id_val: i32,
    start_date_val: Timestamp,
    end_date_val: Timestamp,
    now: Timestamp,
) -> (r: Result<Meeting, DatabaseError>)
    requires
        old(store).wf(),
        start_date_val.wf(),
        end_date_val.wf(),
    ensures
        final(store).wf(),
        match meeting_dates_outcome(start_date_val, end_date_val, now) {
            Err(e) => (r matches Err(x) && is_meeting_error(x, e)),
            Ok(_) => if old(store).next_meeting_id == i32::MAX {
                (r matches Err(DatabaseError::StoreFull))
            } else {
                (r matches Ok(m) && m == (Meeting {
                    id: old(store).next_meeting_id,
                    user_id: user_id_val,
                    start_date: start_date_val,
                    end_date: end_date_val,
                    created_at: now,
                    updated_at: now,
                }) && final(store).meetings@ == old(store).meetings@.push(m)
                    && final(store).next_meeting_id == old(store).next_meeting_id + 1)
            },
        },
        r is Err ==> *final(store) == *old(store),
        keeps_projects(*old(store), *final(store)),
        keeps_tasks(*old(store), *final(store)),
        keeps_task_access(*old(store), *final(store)),
        keeps_task_assignees(*old(store), *final(store)),
        keeps_sub_tasks(*old(store), *final(store)),
        keeps_subtask_assignees(*old(store), *final(store)),
{
    match check_meeting_dates(start_date_val, end_date_val, now) {
        Ok(()) => {},
        Err(e) => {
            return Err(DatabaseError::InvalidMeetingDates(e));
        },
    }
    if store.next_meeting_id == i32::MAX {
        return Err(DatabaseError::StoreFull);
    }
    let m = Meeting {
        id: store.next_meeting_id,
        user_id: user_id_val,
        start_date: start_date_val,
        end_date: end_date_val,
        created_at: now,
        updated_at: now,
    };
    store.meetings.push(m);
    store.next_meeting_id = store.next_meeting_id + 1;
    Ok(m)
}

/// All meetings of `user_id_val`, in table order, with their lengths.
pub fn get_meetings_by_user(store: &Store, user_id_val: i32) -> (r: Vec<MeetingResponse>)
    requires
        store.wf(),
    ensures
        r@ == meeting_responses_of(store.meetings@, user_id_val),
{
    let mut out: Vec<MeetingResponse> = Vec::new();
    let mut i: usize = 0;
    while i < store.meetings.len()
        invariant
            store.wf(),
            i <= store.meetings@.len(),
            out@ == meeting_responses_of(store.meetings@.take(i as int), user_id_val),
        decreases store.meetings@.len() - i,
    {
        assert(store.meetings@.take(i as int + 1).drop_last() =~= store.meetings@.take(i as int));
        let m = store.meetings[i];
        if m.user_id == user_id_val {
            out.push(MeetingResponse::from_meeting(m));
        }
        i += 1;
    }
    assert(store.meetings@.take(store.meetings@.len() as int) =~= store.meetings@);
    out
}

/// Position of the meeting `meeting_id` where it belongs to `user_id`.
fn find_owned_meeting(store: &Store, meeting_id: i32, user_id: i32) -> (r: Option<usize>)
    requires
        store.wf(),
    ensures
        r is Some <==> owns_meeting(*store, meeting_id, user_id),
        r matches Some(i) ==> i < store.meetings@.len() && store.meetings@[i as int].id
            == meeting_id && store.meetings@[i as int].user_id == user_id,
{
    match store.find_meeting(meeting_id) {
        Some(i) => {
            if store.meetings[i].user_id == user_id {
                Some(i)
            } else {
                proof {
                    if owns_meeting(*store, meeting_id, user_id) {
                        let j = choose|j: int|
                            0 <= j < store.meetings@.len() && #[trigger] store.meetings@[j].id
                                == meeting_id && store.meetings@[j].user_id == user_id;
                        if (i as int) < j {
                            assert(store.meetings@[i as int].id != store.meetings@[j].id);
                        } else if j < i {
                            assert(store.meetings@[j].id != store.meetings@[i as int].id);
                        }
                    }
                }
                None
            }
        },
        None => None,
    }
}

/// The meeting `meeting_id_val` of `user_id_val`; `NotFound` where it is
/// absent or another user's.
pub fn get_meeting_by_id(store: &Store, meeting_id_val: i32, user_id_val: i32) -> (r: Result<
    MeetingResponse,
    DatabaseError,
>)
    requires
        store.wf(),
    ensures
        r is Ok <==> owns_meeting(*store, meeting_id_val, user_id_val),
        r matches Ok(resp) ==> exists|i: int|
            0 <= i < store.meetings@.len() && #[trigger] store.meetings@[i].id == meeting_id_val
                && resp == response_of(store.meetings@[i]),
        r is Err ==> (r matches Err(DatabaseError::NotFound)),
{
    match find_owned_meeting(store, meeting_id_val, user_id_val) {
        Some(i) => Ok(MeetingResponse::from_meeting(store.meetings[i])),
        None => Err(DatabaseError::NotFound),
    }
}

/// The date `given`, or `current` where none is given.
pub open spec fn or_current(given: Option<Timestamp>, current: Timestamp) -> Timestamp {
    match given {
        Some(t) => t,
        None => current,
    }
}

/// Moves the meeting `meeting_id_val` of `user_id_val` (`NotFound` where it is
/// absent or another user's). Missing dates keep their stored value, and the
/// resulting pair is checked again against `now` with the three meeting rules.
pub fn update_meeting(
    store: &mut Store,
    meeting_id_val: i32,
    user_id_val: i32,
    start_date_val: Option<Timestamp>,
    end_date_val: Option<Timestamp>,
    now: Timestamp,
) -> (r: Result<MeetingResponse, DatabaseError>)
    requires
        old(store).wf(),
        start_date_val matches Some(t) ==> t.wf(),
        end_date_val matches Some(t) ==> t.wf(),
    ensures
        final(store).wf(),
        !owns_meeting(*old(store), meeting_id_val, user_id_val) ==> (r matches Err(
            DatabaseError::NotFound,
        )),
        owns_meeting(*old(store), meeting_id_val, user_id_val) ==> exists|i: int|
            0 <= i < old(store).meetings@.len() && #[trigger] old(store).meetings@[i].id
                == meeting_id_val && ({
                let m = old(store).meetings@[i];
                let sd = or_current(start_date_val, m.start_date);
                let ed = or_current(end_date_val, m.end_date);
                match meeting_dates_outcome(sd, ed, now) {
                    Err(e) => (r matches Err(x) && is_meeting_error(x, e)),
                    Ok(_) => {
                        let nm = Meeting { start_date: sd, end_date: ed, updated_at: now, ..m };
                        final(store).meetings@ == old(store).meetings@.update(i, nm) && r == Ok::<
                            MeetingResponse,
                            DatabaseError,
                        >(response_of(nm))
                    },
                }
            }),
        r is Err ==> *final(store) == *old(store),
        keeps_projects(*old(store), *final(store)),
        keeps_tasks(*old(store), *final(store)),
        keeps_task_access(*old(store), *final(store)),
        keeps_task_assignees(*old(store), *final(store)),
        keeps_sub_tasks(*old(store), *final(store)),
        keeps_subtask_assignees(*old(store), *final(store)),
        final(store).next_meeting_id == old(store).next_meeting_id,
{
    let i = match find_owned_meeting(store, meeting_id_val, user_id_val) {
        Some(i) => i,
        None => {
            return Err(DatabaseError::NotFound);
        },
    };
    let m = store.meetings[i];
    let sd = match start_date_val {
        Some(t) => t,
        None => m.start_date,
    };
    let ed = match end_date_val {
        Some(t) => t,
        None => m.end_date,
    };
    match check_meeting_dates(sd, ed, now) {
        Ok(()) => {},
        Err(e) => {
            return Err(DatabaseError::InvalidMeetingDates(e));
        },
    }
    let nm = Meeting {
        id: m.id,
        user_id: m.user_id,
        start_date: sd,
        end_date: ed,
        created_at: m.created_at,
        updated_at: now,
    };
    store.meetings.set(i, nm);
    Ok(MeetingResponse::from_meeting(nm))
}

/// Removing one row keeps the meeting keys unique and below the next key.
proof fn lemma_meeting_keys_remove(s: Seq<Meeting>, next: i32, i: int)
    requires
        meeting_keys_ok(s, next),
        0 <= i < s.len(),
    ensures
        meeting_keys_ok(s.remove(i), next),
{
    let r = s.remove(i);
    assert forall|k: int| 0 <= k < r.len() implies r[k] == if k < i { s[k] } else { s[k + 1] } by {}
    assert forall|a: int, b: int| 0 <= a < b < r.len() implies #[trigger] r[a].id != #[trigger] r[b].id by {
        let a2 = if a < i { a } else { a + 1 };
        let b2 = if b < i { b } else { b + 1 };
        assert(r[a] == s[a2] && r[b] == s[b2] && a2 < b2);
    }
}

/// Deletes the meeting `meeting_id_val` of `user_id_val`. A meeting that is
/// absent, or that belongs to another user, gives `NotFound` and stays.
pub fn delete_meeting(store: &mut Store, meeting_id_val: i32, user_id_val: i32) -> (r: Result<
    (),
    DatabaseError,
>)
    requires
        old(store).wf(),
    ensures
        final(store).wf(),
        r is Ok <==> owns_meeting(*old(store), meeting_id_val, user_id_val),
        r is Ok ==> exists|i: int|
            0 <= i < old(store).meetings@.len() && #[trigger] old(store).meetings@[i].id
                == meeting_id_val && final(store).meetings@ == old(store).meetings@.remove(i),
        r is Err ==> (r matches Err(DatabaseError::NotFound)) && *final(store) == *old(store),
        keeps_projects(*old(store), *final(store)),
        keeps_tasks(*old(store), *final(store)),
        keeps_task_access(*old(store), *final(store)),
        keeps_task_assignees(*old(store), *final(store)),
        keeps_sub_tasks(*old(store), *final(store)),
        keeps_subtask_assignees(*old(store), *final(store)),
        final(store).next_meeting_id == old(store).next_meeting_id,
{
    let i = match find_owned_meeting(store, meeting_id_val, user_id_val) {
        Some(i) => i,
        None => {
            return Err(DatabaseError::NotFound);
        },
    };
    proof {
        lemma_meeting_keys_remove(store.meetings@, store.next_meeting_id, i as int);
    }
    store.meetings.remove(i);
    Ok(())
}

/// A meeting has one owner: where user `a` owns it, no other user `b` does,
/// so `b` can neither read nor delete it and it stays readable by `a`.
pub proof fn lemma_meeting_owner_exclusive(s: Store, meeting_id: i32, a: i32, b: i32)
    requires
        s.wf(),
        owns_meeting(s, meeting_id, a),
        a != b,
    ensures
        !owns_meeting(s, meeting_id, b),
{
    if owns_meeting(s, meeting_id, b) {
        let i = choose|i: int|
            0 <= i < s.meetings@.len() && #[trigger] s.meetings@[i].id == meeting_id
                && s.meetings@[i].user_id == a;
        let j = choose|j: int|
            0 <= j < s.meetings@.len() && #[trigger] s.meetings@[j].id == meeting_id
                && s.meetings@[j].user_id == b;
        if i < j {
            assert(s.meetings@[i].id != s.meetings@[j].id);
        } else if j < i {
            assert(s.meetings@[j].id != s.meetings@[i].id);
        }
    }
}

} // verus!

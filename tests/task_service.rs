use webserver::access::{grant_task_access, validate_task_ownership, validate_user_project_access};
use webserver::error::{DatabaseError, TaskErrorKind};
use webserver::models::{Priority, Progress, UpdateTaskRequest};
use webserver::store::{create_project, Store};
use webserver::task_service::{create_task, get_task_by_id, get_tasks, update_task};
use webserver::Timestamp;

const USER_A: i32 = 1;
const USER_B: i32 = 2;

fn early_2024() -> Timestamp {
    Timestamp::new(2024, 1, 15, 8, 0, 0).unwrap()
}

fn empty_update() -> UpdateTaskRequest {
    UpdateTaskRequest {
        description: None,
        reward: None,
        completed: None,
        title: None,
        progress: None,
        priority: None,
        due_date: None,
        assigned_users: None,
    }
}

#[test]
fn task_service_create_task_wrong_project_id() {
    let mut store = Store::new();
    let result = create_task(
        &mut store,
        "test task",
        100,
        1,
        USER_A,
        "Test Title",
        Some("25-12-2024".to_string()),
        early_2024(),
    );
    assert!(result.is_err(), "Task creation succeeded when it should have failed");
    assert!(matches!(result, Err(DatabaseError::ProjectNotFound)));
    let status = webserver::error::ApiError::from_database(result.unwrap_err()).status_code();
    assert_eq!(status, 409);
}

#[test]
fn get_tasks_success() {
    let now = early_2024();
    let mut store = Store::new();
    let project_id = create_project(&mut store, USER_A, "test project".to_string(), "100".to_string(), now)
        .expect("Failed to create project")
        .id;
    let result = create_task(&mut store, "test task", 100, project_id, USER_A, "Title test", None, now);
    assert!(result.is_ok(), "Task creation failed when it should have succeeded");
    let created_task = result.unwrap();
    assert_eq!(created_task.description, "test task");
    assert_eq!(created_task.reward, 100);
    let listed = get_tasks(&store, USER_A);
    assert_eq!(listed.len(), 1);
    assert_eq!(listed[0].id, created_task.id);
    assert_eq!(get_tasks(&store, USER_B).len(), 0);
}

#[test]
fn get_task_by_id_success() {
    let now = early_2024();
    let mut store = Store::new();
    let project_id = create_project(&mut store, USER_A, "test project".to_string(), "100".to_string(), now)
        .expect("Failed to create project")
        .id;
    let result = create_task(
        &mut store,
        "test task",
        100,
        project_id,
        USER_A,
        "title test",
        Some("25-12-2024".to_string()),
        now,
    );
    assert!(result.is_ok(), "Task creation failed when it should have succeeded");
    let created_task = result.unwrap();
    assert_eq!(created_task.description, "test task");
    assert_eq!(created_task.reward, 100);
    let read = get_task_by_id(&store, created_task.id, USER_A).expect("read back");
    assert_eq!(read.task.id, created_task.id);
    assert_eq!(read.subtasks.len(), 0);
}

#[test]
fn new_task_defaults() {
    let now = early_2024();
    let mut store = Store::new();
    let p = create_project(&mut store, USER_A, "p".to_string(), "d".to_string(), now).unwrap();
    let t = create_task(&mut store, "d", 7, p.id, USER_A, "t", None, now).unwrap();
    assert_eq!(t.progress, Progress::ToDo);
    assert_eq!(t.priority, Priority::Medium);
    assert!(!t.completed);
    assert_eq!(t.created_at, now);
    assert_eq!(t.user_id, Some(USER_A));
    assert_eq!(t.due_date, None);
}

#[test]
fn due_date_round_trips_at_midnight() {
    let now = Timestamp::new(2026, 10, 18, 12, 0, 0).unwrap();
    let mut store = Store::new();
    let p = create_project(&mut store, USER_A, "p".to_string(), "d".to_string(), now).unwrap();
    let t = create_task(&mut store, "d", 1, p.id, USER_A, "t", Some("25-12-2099".to_string()), now).unwrap();
    let read = get_task_by_id(&store, t.id, USER_A).unwrap();
    let expected = Timestamp {
        year: 2099,
        month: 12,
        day: 25,
        hour: 0,
        minute: 0,
        second: 0,
        nanosecond: 0,
    };
    assert_eq!(read.task.due_date, Some(expected));
}

#[test]
fn create_task_refuses_bad_due_dates() {
    let now = early_2024();
    let mut store = Store::new();
    let p = create_project(&mut store, USER_A, "p".to_string(), "d".to_string(), now).unwrap();
    match create_task(&mut store, "d", 1, p.id, USER_A, "t", Some("2024-12-25".to_string()), now) {
        Err(DatabaseError::InvalidTaskDate(e)) => {
            assert_eq!(e.kind, TaskErrorKind::InvalidFormat);
            assert_eq!(e.value, "2024-12-25");
        }
        other => panic!("unexpected {:?}", other),
    }
    match create_task(&mut store, "d", 1, p.id, USER_A, "t", Some("14-01-2024".to_string()), now) {
        Err(DatabaseError::InvalidTaskDate(e)) => assert_eq!(e.kind, TaskErrorKind::PastDueDate),
        other => panic!("unexpected {:?}", other),
    }
    assert_eq!(get_tasks(&store, USER_A).len(), 0);
}

#[test]
fn other_user_cannot_read_task() {
    let now = early_2024();
    let mut store = Store::new();
    let p = create_project(&mut store, USER_A, "P".to_string(), "d".to_string(), now).unwrap();
    let t = create_task(&mut store, "d", 1, p.id, USER_A, "T", None, now).unwrap();
    let read = get_task_by_id(&store, t.id, USER_B);
    assert!(matches!(read, Err(DatabaseError::NotFound)));
    assert!(get_task_by_id(&store, 999, USER_A).is_err());
}

#[test]
fn ownership_and_grants() {
    let now = early_2024();
    let mut store = Store::new();
    let p = create_project(&mut store, USER_A, "P".to_string(), "d".to_string(), now).unwrap();
    let t = create_task(&mut store, "d", 1, p.id, USER_A, "T", None, now).unwrap();
    assert_eq!(validate_task_ownership(&store, t.id, USER_A).unwrap().id, t.id);
    assert!(matches!(validate_task_ownership(&store, t.id, USER_B), Err(DatabaseError::PermissionDenied)));
    assert!(matches!(validate_user_project_access(&store, USER_B, p.id), Err(DatabaseError::PermissionDenied)));
    assert!(matches!(grant_task_access(&mut store, t.id, USER_B, USER_B), Err(DatabaseError::PermissionDenied)));
    grant_task_access(&mut store, t.id, USER_A, USER_B).unwrap();
    assert_eq!(validate_task_ownership(&store, t.id, USER_B).unwrap().id, t.id);
    assert_eq!(validate_user_project_access(&store, USER_B, p.id).unwrap().id, p.id);
    assert_eq!(validate_user_project_access(&store, USER_A, p.id).unwrap().title, "P");
    assert!(matches!(validate_task_ownership(&store, 999, USER_B), Err(DatabaseError::PermissionDenied)));
}

#[test]
fn update_task_changes_given_fields_and_replaces_assignees() {
    let now = early_2024();
    let mut store = Store::new();
    let p = create_project(&mut store, USER_A, "P".to_string(), "d".to_string(), now).unwrap();
    let t = create_task(&mut store, "desc", 5, p.id, USER_A, "T", None, now).unwrap();
    let mut first = empty_update();
    first.assigned_users = Some(vec![USER_A, USER_B]);
    let out = update_task(&mut store, t.id, USER_A, first, now).unwrap();
    assert_eq!(out.assigned_users, vec![USER_A, USER_B]);
    let mut second = empty_update();
    second.title = Some("New".to_string());
    second.reward = Some(9);
    second.progress = Some(Progress::Completed);
    second.due_date = Some("01-02-2024".to_string());
    second.assigned_users = Some(vec![USER_B]);
    let out = update_task(&mut store, t.id, USER_A, second, now).unwrap();
    assert_eq!(out.task.title, "New");
    assert_eq!(out.task.description, "desc");
    assert_eq!(out.task.reward, 9);
    assert_eq!(out.task.progress, Progress::Completed);
    assert_eq!(out.task.due_date, Timestamp::midnight(2024, 2, 1));
    assert_eq!(out.assigned_users, vec![USER_B]);
    let unchanged = update_task(&mut store, t.id, USER_A, empty_update(), now).unwrap();
    assert_eq!(unchanged.assigned_users, vec![USER_B]);
}

#[test]
fn update_task_requires_ownership_or_grant() {
    let now = early_2024();
    let mut store = Store::new();
    let p = create_project(&mut store, USER_A, "P".to_string(), "d".to_string(), now).unwrap();
    let t = create_task(&mut store, "desc", 5, p.id, USER_A, "T", None, now).unwrap();
    let mut change = empty_update();
    change.title = Some("X".to_string());
    let refused = update_task(&mut store, t.id, USER_B, change, now);
    assert!(matches!(refused, Err(DatabaseError::PermissionDenied)));
    grant_task_access(&mut store, t.id, USER_A, USER_B).unwrap();
    let mut change = empty_update();
    change.title = Some("X".to_string());
    let done = update_task(&mut store, t.id, USER_B, change, now).unwrap();
    assert_eq!(done.task.title, "X");
    let mut bad = empty_update();
    bad.due_date = Some("01-01-2020".to_string());
    assert!(matches!(update_task(&mut store, t.id, USER_A, bad, now), Err(DatabaseError::InvalidTaskDate(_))));
    assert_eq!(get_tasks(&store, USER_A)[0].title, "X");
}

#[test]
fn repeated_assignees_are_refused() {
    let now = early_2024();
    let mut store = Store::new();
    let p = create_project(&mut store, USER_A, "P".to_string(), "d".to_string(), now).unwrap();
    let t = create_task(&mut store, "desc", 5, p.id, USER_A, "T", None, now).unwrap();
    let mut first = empty_update();
    first.assigned_users = Some(vec![USER_B]);
    update_task(&mut store, t.id, USER_A, first, now).unwrap();
    let mut twice = empty_update();
    twice.title = Some("changed".to_string());
    twice.assigned_users = Some(vec![USER_A, USER_B, USER_A]);
    let refused = update_task(&mut store, t.id, USER_A, twice, now);
    assert!(matches!(refused, Err(DatabaseError::DuplicateAssignee)));
    assert_eq!(get_tasks(&store, USER_A)[0].title, "T");
    assert_eq!(store.task_assignees.len(), 1);
    assert_eq!(DatabaseError::DuplicateAssignee.status_code(), 409);
}

#[test]
fn exhausted_keys_are_reported() {
    let now = early_2024();
    let mut store = Store::new();
    let p = create_project(&mut store, USER_A, "P".to_string(), "d".to_string(), now).unwrap();
    store.next_task_id = i32::MAX;
    let full = create_task(&mut store, "desc", 5, p.id, USER_A, "T", None, now);
    assert!(matches!(full, Err(DatabaseError::StoreFull)));
    assert_eq!(store.tasks.len(), 0);
    store.next_project_id = i32::MAX;
    assert!(matches!(
        create_project(&mut store, USER_A, "Q".to_string(), "d".to_string(), now),
        Err(DatabaseError::StoreFull)
    ));
}

#[test]
fn due_date_equal_to_now_is_accepted() {
    let now = Timestamp::midnight(2024, 1, 15).unwrap();
    let mut store = Store::new();
    let p = create_project(&mut store, USER_A, "P".to_string(), "d".to_string(), now).unwrap();
    let t = create_task(&mut store, "d", 1, p.id, USER_A, "T", Some("15-01-2024".to_string()), now).unwrap();
    assert_eq!(t.due_date, Some(now));
}

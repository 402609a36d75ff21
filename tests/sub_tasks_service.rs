use chrono::Datelike;
use webserver::error::DatabaseError;
use webserver::models::{Priority, Progress, SubTask, Task};
use webserver::store::{create_project, Store};
use webserver::sub_tasks_service::{
    create_subtask, delete_subtask, get_sub_tasks, get_sub_tasks_with_assignees, update_subtask,
};
use webserver::task_service::create_task;
use webserver::Timestamp;

const USER: i32 = 1;
const OTHER_USER: i32 = 2;

fn new_year_2025() -> Timestamp {
    Timestamp::midnight(2025, 1, 1).unwrap()
}

fn today_midnight() -> Timestamp {
    let d = chrono::Utc::now().date_naive();
    Timestamp::midnight(d.year(), d.month(), d.day()).unwrap()
}

fn today_text() -> String {
    chrono::Utc::now().format("%d-%m-%Y").to_string()
}

fn project_and_task(store: &mut Store, user: i32, due: Option<String>, now: Timestamp) -> Task {
    let project = create_project(
        store,
        user,
        "test project".to_string(),
        "test project description".to_string(),
        now,
    )
    .expect("Failed to create project");
    create_task(store, "test task", 100, project.id, user, "task title", due, now)
        .expect("Failed to create task")
}

fn subtask_of(store: &mut Store, task: &Task, user: i32, created: Option<String>, now: Timestamp) -> SubTask {
    create_subtask(
        store,
        task.id,
        "initial subtask",
        "initial subtask description",
        created,
        None,
        Priority::Medium,
        Progress::ToDo,
        user,
        Some(vec![user]),
        now,
    )
    .expect("Failed to create subtask")
}

#[test]
fn create_subtask_success() {
    let now = new_year_2025();
    let mut store = Store::new();
    let task = project_and_task(&mut store, USER, Some("01-01-2025".to_string()), now);
    let subtask = create_subtask(
        &mut store,
        task.id,
        "subtask title",
        "subtask description",
        Some("01-01-2025".to_string()),
        None,
        Priority::Medium,
        Progress::ToDo,
        USER,
        Some(vec![USER]),
        now,
    );
    assert!(subtask.is_ok(), "Subtask creation failed when it should have succeeded");
}

#[test]
fn create_subtask_invalid_task_id() {
    let now = new_year_2025();
    let mut store = Store::new();
    let result = create_subtask(
        &mut store,
        999,
        "subtask title",
        "subtask description",
        Some("01-01-2025".to_string()),
        None,
        Priority::Medium,
        Progress::ToDo,
        USER,
        Some(vec![USER]),
        now,
    );
    assert!(result.is_err(), "Subtask creation succeeded with an invalid task ID");
    assert!(matches!(result, Err(DatabaseError::TaskNotFound)));
}

#[test]
fn get_sub_tasks_success() {
    let now = new_year_2025();
    let mut store = Store::new();
    let task = project_and_task(&mut store, USER, Some("01-01-2025".to_string()), now);
    create_subtask(
        &mut store,
        task.id,
        "subtask title",
        "subtask description",
        Some("01-01-2025".to_string()),
        None,
        Priority::Medium,
        Progress::ToDo,
        USER,
        None,
        now,
    )
    .expect("Failed to create subtask");
    let subtasks = get_sub_tasks(&store, USER);
    assert_eq!(subtasks.len(), 1, "Expected one subtask to be retrieved");
}

#[test]
fn get_sub_tasks_with_assignees_success() {
    let now = new_year_2025();
    let mut store = Store::new();
    let task = project_and_task(&mut store, USER, Some("01-01-2025".to_string()), now);
    let _subtask = create_subtask(
        &mut store,
        task.id,
        "subtask title",
        "subtask description",
        Some("01-01-2025".to_string()),
        None,
        Priority::Medium,
        Progress::ToDo,
        USER,
        Some(vec![USER]),
        now,
    )
    .expect("Failed to create subtask");
    let subtasks_with_assignees = get_sub_tasks_with_assignees(&store, task.id);
    assert_eq!(subtasks_with_assignees.len(), 1, "Expected one subtask to be retrieved");
    assert_eq!(
        subtasks_with_assignees[0].assignees.len(),
        1,
        "Expected one assignee for the subtask"
    );
}

#[test]
fn test_update_subtask_success() {
    let now = today_midnight();
    let mut store = Store::new();
    let task = project_and_task(&mut store, USER, Some(today_text()), now);
    let subtask = subtask_of(&mut store, &task, USER, Some(today_text()), now);
    let updated_subtask = update_subtask(
        &mut store,
        subtask.id,
        task.id,
        USER,
        Some("Updated Subtask"),
        Some("Updated description"),
        Some(true),
        Some(Progress::InProgress),
        Some(Priority::High),
        None,
        None,
        Some(vec![USER]),
        now,
    )
    .expect("Failed to update subtask");
    assert_eq!(updated_subtask.sub_task.title, "Updated Subtask");
    assert_eq!(updated_subtask.sub_task.description, Some("Updated description".to_string()));
    assert!(updated_subtask.sub_task.completed);
    assert_eq!(updated_subtask.sub_task.progress, Progress::InProgress);
    assert_eq!(updated_subtask.sub_task.priority, Priority::High);
}

#[test]
fn test_update_subtask_unauthorized() {
    let now = today_midnight();
    let mut store = Store::new();
    let task = project_and_task(&mut store, USER, Some(today_text()), now);
    let subtask = subtask_of(&mut store, &task, USER, Some(today_text()), now);
    let update_result = update_subtask(
        &mut store,
        subtask.id,
        task.id,
        OTHER_USER,
        Some("Updated Subtask"),
        None,
        None,
        None,
        None,
        None,
        None,
        None,
        now,
    );
    assert!(update_result.is_err());
    assert!(matches!(update_result, Err(DatabaseError::NotFound)));
}

#[test]
fn test_delete_subtask_success() {
    let now = today_midnight();
    let mut store = Store::new();
    let task = project_and_task(&mut store, USER, Some(today_text()), now);
    let subtask = subtask_of(&mut store, &task, USER, Some(today_text()), now);
    let delete_result = delete_subtask(&mut store, subtask.id, task.id, USER);
    assert!(delete_result.is_ok());
    assert_eq!(get_sub_tasks(&store, USER).len(), 0);
    assert_eq!(store.subtask_assignees.len(), 0);
}

#[test]
fn test_delete_subtask_unauthorized() {
    let now = today_midnight();
    let mut store = Store::new();
    let task = project_and_task(&mut store, USER, Some(today_text()), now);
    let subtask = subtask_of(&mut store, &task, USER, Some(today_text()), now);
    let delete_result = delete_subtask(&mut store, subtask.id, task.id, OTHER_USER);
    assert!(delete_result.is_err());
    assert!(matches!(delete_result, Err(DatabaseError::NotFound)));
}

#[test]
fn test_delete_subtask_wrong_task() {
    let now = today_midnight();
    let mut store = Store::new();
    let task1 = project_and_task(&mut store, USER, Some(today_text()), now);
    let task2 = project_and_task(&mut store, USER, Some(today_text()), now);
    let subtask = subtask_of(&mut store, &task1, USER, Some(today_text()), now);
    let delete_result = delete_subtask(&mut store, subtask.id, task2.id, USER);
    assert!(delete_result.is_err());
    assert!(matches!(delete_result, Err(DatabaseError::NotFound)));
}

#[test]
fn replacing_subtask_assignees_drops_the_old_ones() {
    let now = new_year_2025();
    let mut store = Store::new();
    let task = project_and_task(&mut store, USER, None, now);
    let subtask = subtask_of(&mut store, &task, USER, None, now);
    let before = get_sub_tasks_with_assignees(&store, task.id);
    assert_eq!(before[0].assignees, vec![USER]);
    update_subtask(
        &mut store, subtask.id, task.id, USER, None, None, None, None, None, None, None,
        Some(vec![OTHER_USER]), now,
    )
    .expect("update");
    let after = get_sub_tasks_with_assignees(&store, task.id);
    assert_eq!(after.len(), 1);
    assert_eq!(after[0].assignees, vec![OTHER_USER]);
}

#[test]
fn subtask_update_keeps_absent_fields_and_stamps_time() {
    let now = new_year_2025();
    let later = Timestamp::new(2025, 1, 2, 9, 30, 0).unwrap();
    let mut store = Store::new();
    let task = project_and_task(&mut store, USER, None, now);
    let subtask = subtask_of(&mut store, &task, USER, None, now);
    let out = update_subtask(
        &mut store, subtask.id, task.id, USER, None, None, None, None, None, None,
        Some("03-01-2025".to_string()), None, later,
    )
    .expect("update");
    assert_eq!(out.sub_task.title, "initial subtask");
    assert_eq!(out.sub_task.description, Some("initial subtask description".to_string()));
    assert_eq!(out.sub_task.updated_at, later);
    assert_eq!(out.sub_task.due_date, Timestamp::midnight(2025, 1, 3));
    assert_eq!(out.assignees, vec![USER]);
    assert_eq!(out.task_id, task.id);
}

#[test]
fn subtask_creation_checks_dates() {
    let now = new_year_2025();
    let mut store = Store::new();
    let task = project_and_task(&mut store, USER, None, now);
    let future_created = create_subtask(
        &mut store, task.id, "s", "d", Some("02-01-2025".to_string()), None,
        Priority::Low, Progress::ToDo, USER, None, now,
    );
    match future_created {
        Err(DatabaseError::InvalidTaskDate(e)) => {
            assert_eq!(e.kind, webserver::error::TaskErrorKind::FutureCreationDate);
            assert_eq!(e.value, "02-01-2025");
        }
        other => panic!("unexpected {:?}", other),
    }
    let past_due = create_subtask(
        &mut store, task.id, "s", "d", None, Some("31-12-2024".to_string()),
        Priority::Low, Progress::ToDo, USER, None, now,
    );
    assert!(matches!(past_due, Err(DatabaseError::InvalidTaskDate(_))));
    assert_eq!(get_sub_tasks(&store, USER).len(), 0);
}

#[test]
fn repeated_subtask_assignees_are_refused() {
    let now = new_year_2025();
    let mut store = Store::new();
    let task = project_and_task(&mut store, USER, None, now);
    let created = create_subtask(
        &mut store, task.id, "s", "d", None, None, Priority::Low, Progress::ToDo, USER,
        Some(vec![USER, USER]), now,
    );
    assert!(matches!(created, Err(DatabaseError::DuplicateAssignee)));
    assert_eq!(get_sub_tasks(&store, USER).len(), 0);
    let subtask = subtask_of(&mut store, &task, USER, None, now);
    let updated = update_subtask(
        &mut store, subtask.id, task.id, USER, Some("x"), None, None, None, None, None, None,
        Some(vec![OTHER_USER, OTHER_USER]), now,
    );
    assert!(matches!(updated, Err(DatabaseError::DuplicateAssignee)));
    let listed = get_sub_tasks_with_assignees(&store, task.id);
    assert_eq!(listed[0].sub_task.title, "initial subtask");
    assert_eq!(listed[0].assignees, vec![USER]);
}

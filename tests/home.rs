use webserver::home::{get_assigned_tasks, latest_project, match_progress, tasks_by_progress};
use webserver::models::{Progress, UpdateTaskRequest};
use webserver::store::{create_project, Store};
use webserver::task_service::{create_task, update_task};
use webserver::Timestamp;

fn at(y: i32, mo: u32, d: u32) -> Timestamp {
    Timestamp::new(y, mo, d, 9, 0, 0).unwrap()
}

fn progress_update(p: Progress, users: Option<Vec<i32>>) -> UpdateTaskRequest {
    UpdateTaskRequest {
        description: None,
        reward: None,
        completed: None,
        title: None,
        progress: Some(p),
        priority: None,
        due_date: None,
        assigned_users: users,
    }
}

#[test]
fn progress_words() {
    assert_eq!(match_progress("to_do"), Ok(Progress::ToDo));
    assert_eq!(match_progress("in_progress"), Ok(Progress::InProgress));
    assert_eq!(match_progress("completed"), Ok(Progress::Completed));
    assert_eq!(match_progress("done"), Err(()));
    assert_eq!(match_progress("ToDo"), Err(()));
}

#[test]
fn tasks_filtered_by_progress() {
    let now = at(2024, 1, 1);
    let mut store = Store::new();
    let p = create_project(&mut store, 1, "p".to_string(), "d".to_string(), now).unwrap();
    let a = create_task(&mut store, "a", 1, p.id, 1, "a", None, now).unwrap();
    let _b = create_task(&mut store, "b", 1, p.id, 1, "b", None, now).unwrap();
    update_task(&mut store, a.id, 1, progress_update(Progress::Completed, None), now).unwrap();
    assert_eq!(tasks_by_progress(&store, None).unwrap().len(), 2);
    let done = tasks_by_progress(&store, Some("completed")).unwrap();
    assert_eq!(done.len(), 1);
    assert_eq!(done[0].id, a.id);
    assert_eq!(tasks_by_progress(&store, Some("to_do")).unwrap().len(), 1);
    assert!(tasks_by_progress(&store, Some("later")).is_err());
}

#[test]
fn latest_project_is_the_last_created() {
    let mut store = Store::new();
    assert!(latest_project(&store, 1).is_none());
    create_project(&mut store, 1, "old".to_string(), "d".to_string(), at(2024, 1, 1)).unwrap();
    create_project(&mut store, 1, "new".to_string(), "d".to_string(), at(2024, 3, 1)).unwrap();
    create_project(&mut store, 1, "middle".to_string(), "d".to_string(), at(2024, 2, 1)).unwrap();
    create_project(&mut store, 2, "other".to_string(), "d".to_string(), at(2024, 4, 1)).unwrap();
    assert_eq!(latest_project(&store, 1).unwrap().title, "new");
    assert_eq!(latest_project(&store, 2).unwrap().title, "other");
}

#[test]
fn assigned_tasks_are_grouped() {
    let now = at(2024, 1, 1);
    let mut store = Store::new();
    let p = create_project(&mut store, 1, "p".to_string(), "d".to_string(), now).unwrap();
    let a = create_task(&mut store, "a", 1, p.id, 1, "a", None, now).unwrap();
    let b = create_task(&mut store, "b", 1, p.id, 1, "b", None, now).unwrap();
    let _c = create_task(&mut store, "c", 1, p.id, 1, "c", None, now).unwrap();
    update_task(&mut store, b.id, 1, progress_update(Progress::InProgress, Some(vec![3, 4])), now).unwrap();
    update_task(&mut store, a.id, 1, progress_update(Progress::InProgress, Some(vec![5])), now).unwrap();
    let grouped = get_assigned_tasks(&store);
    assert_eq!(grouped.len(), 2);
    assert_eq!(grouped[0].task.id, a.id);
    assert_eq!(grouped[0].assignees, vec![5]);
    assert_eq!(grouped[1].task.id, b.id);
    assert_eq!(grouped[1].assignees, vec![3, 4]);
}

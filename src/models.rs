use vstd::prelude::*;

use crate::clock::minutes_between;
use crate::timestamp::Timestamp;

verus! {

/// Lifecycle of a task or subtask.
#[derive(Clone, Copy, Debug, PartialEq, Eq, Structural)]
pub enum Progress {
    ToDo,
    InProgress,
    Completed,
}

/// Urgency of a task or subtask.
#[derive(Clone, Copy, Debug, PartialEq, Eq, Structural)]
pub enum Priority {
    Low,
    Medium,
    High,
}

/// A project, owned by the user who created it.
#[derive(Debug)]
pub struct Project {
    pub id: i32,
    pub user_id: i32,
    pub title: String,
    pub description: String,
    pub created_at: Timestamp,
}

/// A task of a project.
#[derive(Debug)]
pub struct Task {
    pub id: i32,
    pub project_id: i32,
    pub user_id: Option<i32>,
    pub title: String,
    pub description: String,
    pub reward: i64,
    pub completed: bool,
    pub progress: Progress,
    pub priority: Priority,
    pub due_date: Option<Timestamp>,
    pub created_at: Timestamp,
}

/// An explicit grant that lets a user other than the owner act on a task.
#[derive(Clone, Copy, Debug, PartialEq, Eq, Structural)]
pub struct TaskAccess {
    pub task_id: i32,
    pub user_id: i32,
}

/// A user made responsible for a task.
#[derive(Clone, Copy, Debug, PartialEq, Eq, Structural)]
pub struct TaskAssignee {
    pub task_id: i32,
    pub user_id: i32,
    pub assigned_at: Option<Timestamp>,
}

/// A subtask of a task.
#[derive(Debug)]
pub struct SubTask {
    pub id: i32,
    pub task_id: i32,
    pub title: String,
    pub description: Option<String>,
    pub created_at: Timestamp,
    pub updated_at: Timestamp,
    pub due_date: Option<Timestamp>,
    pub priority: Priority,
    pub progress: Progress,
    pub user_id: i32,
    pub completed: bool,
}

/// A user made responsible for a subtask.
#[derive(Clone, Copy, Debug, PartialEq, Eq, Structural)]
pub struct SubTaskAssignee {
    pub sub_task_id: i32,
    pub user_id: i32,
    pub task_id: i32,
}

/// A meeting in a user's agenda.
#[derive(Clone, Copy, Debug, PartialEq, Eq, Structural)]
pub struct Meeting {
    pub id: i32,
    pub user_id: i32,
    pub start_date: Timestamp,
    pub end_date: Timestamp,
    pub created_at: Timestamp,
    pub updated_at: Timestamp,
}

/// A meeting as it is answered, with its length in minutes.
#[derive(Clone, Copy, Debug, PartialEq, Eq, Structural)]
pub struct MeetingResponse {
    pub id: i32,
    pub user_id: i32,
    pub start_date: Timestamp,
    pub end_date: Timestamp,
    pub duration: i64,
    pub created_at: Timestamp,
    pub updated_at: Timestamp,
}

/// A task together with all of its subtasks.
#[derive(Debug)]
pub struct TaskWithSubTasks {
    pub task: Task,
    pub subtasks: Vec<SubTask>,
}

/// A task that has assignees, together with them.
#[derive(Debug)]
pub struct TaskWithAssignees {
    pub task: Task,
    pub assignees: Vec<i32>,
}

/// A task together with the users assigned to it.
#[derive(Debug)]
pub struct TaskWithAssignedUsers {
    pub task: Task,
    pub assigned_users: Vec<i32>,
}

/// A subtask together with the users assigned to it.
#[derive(Debug)]
pub struct SubTaskWithAssignees {
    pub sub_task: SubTask,
    pub assignees: Vec<i32>,
}

/// A subtask as it stands after an update, with its assigned users.
#[derive(Debug)]
pub struct SubTaskWithAssignedUsers {
    pub sub_task: SubTask,
    pub assignees: Vec<i32>,
    pub task_id: i32,
    pub assigned_at: Timestamp,
}

/// What a client sends to create a task.
#[derive(Debug)]
pub struct CreateTaskRequest {
    pub description: String,
    pub reward: i64,
    pub project_id: i32,
    pub title: String,
    pub due_date: Option<String>,
}

/// What a client sends to change a task; absent fields stay as they are.
#[derive(Debug)]
pub struct UpdateTaskRequest {
    pub description: Option<String>,
    pub reward: Option<i64>,
    pub completed: Option<bool>,
    pub title: Option<String>,
    pub progress: Option<Progress>,
    pub priority: Option<Priority>,
    pub due_date: Option<String>,
    pub assigned_users: Option<Vec<i32>>,
}

/// What a client sends to create a subtask.
#[derive(Debug)]
pub struct CreateSubTaskRequest {
    pub task_id: i32,
    pub title: String,
    pub description: String,
    pub created_at: Option<String>,
    pub due_date: Option<String>,
    pub priority: Priority,
    pub progress: Progress,
    pub assigned_users: Option<Vec<i32>>,
}

/// The same optional text, held anew.
pub fn copy_text(s: &Option<String>) -> (r: Option<String>)
    ensures
        r == *s,
{
    match s {
        Some(t) => Some(t.clone()),
        None => None,
    }
}

impl Project {
    /// The same row, field for field.
    pub fn duplicate(&self) -> (r: Project)
        ensures
            r == *self,
    {
        Project {
            id: self.id,
            user_id: self.user_id,
            title: self.title.clone(),
            description: self.description.clone(),
            created_at: self.created_at,
        }
    }
}

impl Task {
    /// The same row, field for field.
    pub fn duplicate(&self) -> (r: Task)
        ensures
            r == *self,
    {
        Task {
            id: self.id,
            project_id: self.project_id,
            user_id: self.user_id,
            title: self.title.clone(),
            description: self.description.clone(),
            reward: self.reward,
            completed: self.completed,
            progress: self.progress,
            priority: self.priority,
            due_date: self.due_date,
            created_at: self.created_at,
        }
    }
}

impl SubTask {
    /// The same row, field for field.
    pub fn duplicate(&self) -> (r: SubTask)
        ensures
            r == *self,
    {
        SubTask {
            id: self.id,
            task_id: self.task_id,
            title: self.title.clone(),
            description: copy_text(&self.description),
            created_at: self.created_at,
            updated_at: self.updated_at,
            due_date: self.due_date,
            priority: self.priority,
            progress: self.progress,
            user_id: self.user_id,
            completed: self.completed,
        }
    }

    /// This subtask together with the given assigned users.
    pub fn with_assignees(self, assignees: Vec<i32>) -> (r: SubTaskWithAssignees)
        ensures
            r.sub_task == self,
            r.assignees@ == assignees@,
    {
        SubTaskWithAssignees { sub_task: self, assignees }
    }
}

impl SubTaskWithAssignees {
    /// A subtask together with the given assigned users.
    pub fn new(sub_task: SubTask, assignees: Vec<i32>) -> (r: SubTaskWithAssignees)
        ensures
            r.sub_task == sub_task,
            r.assignees@ == assignees@,
    {
        SubTaskWithAssignees { sub_task, assignees }
    }
}

/// A meeting as it is answered.
pub open spec fn response_of(m: Meeting) -> MeetingResponse {
    MeetingResponse {
        id: m.id,
        user_id: m.user_id,
        start_date: m.start_date,
        end_date: m.end_date,
        duration: minutes_between((m.start_date, m.end_date)) as i64,
        created_at: m.created_at,
        updated_at: m.updated_at,
    }
}

impl MeetingResponse {
    /// The answer for a meeting, with its length in whole minutes.
    pub fn from_meeting(m: Meeting) -> (r: MeetingResponse)
        requires
            m.start_date.wf(),
            m.end_date.wf(),
        ensures
            r == response_of(m),
    {
        let duration = crate::clock::minutes_from_to(m.start_date, m.end_date);
        MeetingResponse {
            id: m.id,
            user_id: m.user_id,
            start_date: m.start_date,
            end_date: m.end_date,
            duration,
            created_at: m.created_at,
            updated_at: m.updated_at,
        }
    }
}

} // verus!

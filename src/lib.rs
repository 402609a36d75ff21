//! Validation and authorization core of a task and meeting tracker: date
//! rules for tasks, subtasks and meetings, ownership and access checks, and
//! the services that apply them to an in-memory relational store.

mod clock;

pub mod access;
pub mod error;
pub mod helpers;
pub mod home;
pub mod models;
pub mod relations;
pub mod store;
pub mod sub_tasks_service;
pub mod task_service;
pub mod timestamp;
pub mod user_agenda_service;

pub use timestamp::Timestamp;

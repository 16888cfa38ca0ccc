//! The units of work a synchronisation is made of, and the decisions each
//! one takes.
pub mod repo_task;
pub mod action_task;
pub mod task_runner;
pub mod sub_repo_task;
pub mod file_task;
pub mod unpack;
pub mod link_file_task;
pub mod copy_file_task;
pub mod clean_task;
pub mod deps_task;

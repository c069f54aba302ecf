//! A small task tracker: tasks with an id, a description, a status and two
//! timestamps, kept in an insertion-ordered collection, together with the
//! rules for adding, editing, removing and listing them.

pub mod cli;
pub mod commands;
pub mod edits;
pub mod laws;
pub mod model;
pub mod records;
pub mod report;
pub mod status;
pub mod task;
pub mod timestamp;

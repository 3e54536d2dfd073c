//! A single-user task tracker: an ordered list of tasks with dense,
//! one-based ids, the four commands that act on it, and the text that each
//! command reports.
//!
//! The crate holds the rules only. Reading and writing the backing file and
//! decoding the command line are the caller's business: the caller hands a
//! task list to [`commands::run`] and gets back the new list, the lines to
//! print, and whether the list has to be written out again.

mod clock;
pub mod commands;
pub mod decimal;
pub mod list;
pub mod model;
pub mod report;
pub mod task;

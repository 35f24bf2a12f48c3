//! A minimal personal task tracker.
//!
//! Tasks have a unique id, a unique name, a start time and an optional end
//! time. The library holds the verified logic: parsing command-line
//! arguments, the in-memory model of the task table, executing a command
//! against that model, and rendering the output lines. A thin front end
//! owns the database file and mirrors each model change into it.

pub mod cli;
pub mod decimal;
pub mod laws;
pub mod render;
pub mod runner;
pub mod task;
pub mod timefmt;

//! Processes: what is read from `/proc` and how a process is shown.

pub mod stat;
pub mod types;

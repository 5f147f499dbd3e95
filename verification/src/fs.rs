//! File-system commands: names, checks and the steps of each command.

pub mod errors;
pub mod types;
pub mod names;
pub mod validate;
pub mod checks;
pub mod delete;
pub mod rename;
pub mod create;
pub mod info;
pub mod listing;
pub mod dry_run;

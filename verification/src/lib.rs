//! Verified core of a small command-line toolkit for inspecting files and processes.

pub mod text;
pub mod scan;
pub mod proc;
pub mod size_format;
pub mod query;
pub mod table;
pub mod fs;

//! Finds the build directories named `target` below a root directory, adds up
//! what each one holds, and plans their removal.
//!
//! The library never touches the file system. A caller walks directories and
//! hands over what the walk yielded; the library decides which entries are
//! build directories, how large they are, what to print or delete next, and
//! what total to report.

pub mod config;
pub mod entry;
pub mod remove;
pub mod report;
pub mod run;
pub mod scan;
pub mod size;

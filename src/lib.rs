//! Review the source of dependency updates before trusting them.
//!
//! The library holds the decisions of the tool: package identifiers and their
//! text form, the comparison of two dependency graphs, the lock file guard and
//! the steps of the update workflow. Running processes and touching the file
//! system is left to the caller.
pub mod error;
pub mod graph;
pub mod lockfile_guard;
pub mod package_id;
pub mod snapshot_diff;
pub mod workflow;

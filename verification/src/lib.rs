//! Verified core of a git fixup helper.
//!
//! The library gathers candidate target commits for folding staged changes
//! into an earlier commit.  It resolves the revision range to search, parses
//! the staged diff into hunks, maps blame output to owning commits, merges the
//! discovery strategies into one deduplicated candidate stream, and resolves
//! the picked line into a commit action.  All subprocess work (running git and
//! the interactive picker) lives outside the library; the functions here take
//! the plain values those processes produce and return the plain values they
//! consume.

pub mod blame;
pub mod candidates;
pub mod config;
pub mod diff;
pub mod errors;
pub mod git;
pub mod picker;
pub mod range;
pub mod run;
pub mod text;
pub mod version;

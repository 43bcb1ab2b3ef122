//! Decides whether a CI job can be skipped because an earlier run of the same
//! job already succeeded on bit-identical dependency files.
//!
//! The decision engine computes a content fingerprint for a configured set of
//! paths at a commit, searches the project's job history for an earlier
//! successful run of the same job with an equal fingerprint, recovers the
//! causal "oldest ancestor" link from that run's log, and persists the verdict
//! in a single flag file so repeated invocations are idempotent.

pub mod artifact;
pub mod config;
pub mod git;
pub mod jobs;
pub mod process;
pub mod search;
pub mod skip_file;
pub mod text;
pub mod trace;

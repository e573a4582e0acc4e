//! Verified core of a repository mirroring tool.
//!
//! The crate gathers remote repository listings (pagination, per-account
//! fan-out, deduplication by full name), decides how each local working copy
//! is brought up to date (a per-repository state machine over external
//! command outcomes), maps repositories to destination paths, plans the
//! pruning of a mirrored directory tree, and bounds how many jobs run at
//! once. All network, filesystem and process work is left to the caller;
//! the functions here take and return plain values and carry contracts.

pub mod aggregate;
pub mod classify;
pub mod orchestrate;
pub mod paginate;
pub mod paths;
pub mod prune;
pub mod repo;
pub mod strutil;
pub mod syncsm;

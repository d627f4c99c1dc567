//! Leader-side replication bookkeeping for a Raft log: per-follower progress
//! tracking with flow control, and a log view that joins durable storage with
//! an in-memory unstable tail.

pub mod inflights;
pub mod progress;
pub mod errors;
pub mod unstable;
pub mod storage;
pub mod raft_log;

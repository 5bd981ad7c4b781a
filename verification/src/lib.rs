//! Parallel file-download engine: range planning, chunk-fetch tracking,
//! progress accounting and ordered merging of chunk data.
//!
//! The engine splits a resource of known content length into contiguous byte
//! ranges, tracks one concurrent fetch per range, accounts for progress in a
//! shared counter, and allows the merge of the chunk temporary files into the
//! final output only once every fetch has succeeded.  Network and file I/O
//! live outside the library; callers feed outcomes back into these verified
//! state machines.

pub mod config;
pub mod engine;
pub mod errors;
pub mod fetch;
pub mod merge;
pub mod naming;
pub mod progress;
pub mod range;
pub mod service;

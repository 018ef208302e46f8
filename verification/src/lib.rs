//! The decision-making core of a batch uploader for medical image files.
//!
//! The crate holds no I/O. A caller walks a directory tree, reads files and
//! talks to the network; every choice in between is made here and comes with
//! a contract.

pub mod batch;
pub mod discovery;
pub mod failure_log;
pub mod invocation;
pub mod outcome;
pub mod progress;
pub mod schedule;
pub mod upload;

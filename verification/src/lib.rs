//! Reconstructs per-file I/O activity from system-call traces.
//!
//! A trace holds one system call per line. The engine recognises the calls
//! that open, duplicate, use and close file descriptors, keeps for each open
//! descriptor a summary of the reads and writes seen on it, and hands each
//! summary out when its descriptor is given up or its trace file ends. The
//! trace files of child processes are followed from the `clone` calls.
//!
//! The library reads no files: a [`session::Session`] says which trace file
//! it wants a line of, and is fed what reading gave.

pub mod analysis;
pub mod config;
pub mod input;
pub mod laws;
pub mod log;
pub mod order;
pub mod output;
pub mod recognizer;
pub mod report;
pub mod session;
pub mod summary;
pub mod syscall;
pub mod text;

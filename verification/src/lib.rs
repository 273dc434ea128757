//! Verified core of a parallel gzip batch tool: enumerating input files,
//! compressing and decompressing in-memory buffers through a gzip codec,
//! partitioning a task list across a fixed pool of workers, and aggregating
//! per-file outcomes into summary statistics.
//!
//! File and console I/O, thread spawning and argument parsing live in the
//! surrounding application; every decision and computation between those
//! edges is specified and verified here.

pub mod codec;
pub mod enumerate;
pub mod models;
pub mod report;
pub mod schedule;

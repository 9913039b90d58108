//! Bounded-concurrency screenshot dispatch engine.
//!
//! The heart of the crate is a verified execution core: a permit pool that
//! bounds how many capture operations may be in flight at once, a task
//! runner that normalizes capture outcomes, result aggregation and live
//! progress accounting, all driven as steps of one abstract run machine
//! whose laws hold for every order in which a scheduler fires them. The
//! browser automation, file I/O and CLI surface around that core are
//! ordinary unverified glue that feeds the core plain values and carries
//! out the actions it decides on.

pub mod capture;
pub mod cli;
pub mod config;
pub mod executor;
pub mod file_ops;
pub mod laws;
pub mod machine;
pub mod paths;
pub mod pool;
pub mod progress;
pub mod runner;
pub mod stats;
pub mod target;
pub mod text;

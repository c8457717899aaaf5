//! A read/write contention benchmark: counters shared between many tasks,
//! and the randomized stream of operations that is run against them.
pub mod counter;
pub mod replay;
pub mod workload;

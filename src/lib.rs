//! Runt: a concurrent snapshot testing runner.
//!
//! Each test suite pairs a command template with a set of input files. The
//! command is run once per input, and its exit code, standard output and
//! standard error are folded into an expectation string that is compared
//! against a recorded `.expect` file.
//!
//! This crate holds the runner's logic: the expectation format, the result
//! state machine, the counters of a run, the post-filters, and the chunked
//! line diff used to show mismatches. Spawning processes, timers and file
//! access are left to the caller, who hands the outcomes back as plain values.
use vstd::prelude::*;

pub mod cli;
pub mod config;
pub mod diff;
pub mod errors;
pub mod executor;
pub mod picker;
pub mod style;
pub mod test;
pub mod test_results;
pub mod test_suite;
pub mod text;

verus! {

} // verus!

//! Pickers gather the test suites of a run.
use vstd::prelude::*;

pub mod toml;

verus! {

} // verus!

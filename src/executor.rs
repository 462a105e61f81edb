//! Running tests: the tests of a run, their results, and the state of a run.
use vstd::prelude::*;

pub mod context;
pub mod results;
pub mod suite;

pub use context::Context;
pub use test::Test;

verus! {

} // verus!

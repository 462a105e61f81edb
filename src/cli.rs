//! Options of a run.
use vstd::prelude::*;
use crate::errors::RuntError;

verus! {

/// The options of a run, as given on the command line.
pub struct Opts {
    /// The directory that holds the test configuration.
    pub dir: String,
    /// Show diffs for each failing test.
    pub diff: bool,
    /// Update expect files for displayed tests.
    pub save: bool,
    /// Print the commands to be run for each test instead of running them.
    pub dry_run: bool,
    /// Print every result.
    pub verbose: bool,
    /// Also run tests that are normally skipped with `.skip` files.
    pub ignore_skip: bool,
    /// Only report (and save) results of this kind.
    pub post_filter: Option<OnlyOpt>,
    /// Leave out tests whose `<suite-name>:<path>` matches this regex.
    pub exclude_filter: Option<String>,
    /// Only run tests whose `<suite-name>:<path>` matches this regex.
    pub include_filter: Option<String>,
    /// The number of worker threads.
    pub jobs_limit: Option<usize>,
    /// The largest number of tests in flight at once.
    pub max_futures: Option<usize>,
    /// Print the version.
    pub version: bool,
}

/// Reads a path argument; every text is a path.
pub fn read_path(path: &str) -> (r: Result<String, String>)
    ensures
        r is Ok,
        r->Ok_0@ == path@,
{
    Ok(path.to_owned())
}

/// The kinds of result that the `--only` option selects.
#[derive(Clone, Copy, Debug, PartialEq, Eq, Structural)]
pub enum OnlyOpt {
    /// Failing tests.
    Fail,
    /// Passing tests.
    Pass,
    /// Tests missing expect files.
    Missing,
}

/// The message of an unknown `--only` value.
pub open spec fn unknown_only_message() -> Seq<char> {
    "Unknown --only filter. Expected: fail, pass, miss"@
}

impl OnlyOpt {
    /// The option that a text names: `fail`, `pass` or `miss`.
    pub open spec fn named(s: Seq<char>) -> Option<OnlyOpt> {
        if s == "fail"@ {
            Some(OnlyOpt::Fail)
        } else if s == "pass"@ {
            Some(OnlyOpt::Pass)
        } else if s == "miss"@ {
            Some(OnlyOpt::Missing)
        } else {
            None
        }
    }

    /// Parses the value of the `--only` option.
    pub fn from_str(s: &str) -> (r: Result<OnlyOpt, RuntError>)
        ensures
            OnlyOpt::named(s@) is Some ==> r == Ok::<OnlyOpt, RuntError>(OnlyOpt::named(s@)->0),
            OnlyOpt::named(s@) is None ==> r is Err && r->Err_0.0@ == unknown_only_message(),
    {
        let t = s.to_owned();
        if t == "fail".to_owned() {
            Ok(OnlyOpt::Fail)
        } else if t == "pass".to_owned() {
            Ok(OnlyOpt::Pass)
        } else if t == "miss".to_owned() {
            Ok(OnlyOpt::Missing)
        } else {
            Err(RuntError("Unknown --only filter. Expected: fail, pass, miss".to_owned()))
        }
    }
}

} // verus!

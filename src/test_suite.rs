//! Test suites of the per-suite runner.
use vstd::prelude::*;
use crate::errors::{RichVec, RuntError};
use crate::executor::suite::{filter_label, regex_is_match, regex_matches, select};
use crate::executor::test::{expect_string, opt_view, substitute};
use crate::test_results::{TestResult, TestSuiteResult};

verus! {

/// Configuration for a test suite.
pub struct TestSuite {
    /// Name of this suite.
    pub name: String,
    /// Paths of input files.
    pub paths: Vec<String>,
    /// Command to execute. The pattern `{}` in this string is replaced with
    /// the matching path.
    pub cmd: String,
    /// Optional directory to store the generated expect files.
    pub expect_dir: Option<String>,
}

/// The shell command for the test at `path`: the template with each `{}`
/// replaced by the path.
pub fn construct_command(cmd: &str, path: &str) -> (r: String)
    ensures
        r@ == substitute(cmd@, path@),
{
    let t = crate::executor::Test {
        path: path.to_owned(),
        cmd: cmd.to_owned(),
        expect_dir: None,
        test_suite: 0,
        timeout: 0,
    };
    t.construct_command()
}

/// The result of a finished test at `path` whose expect file is at
/// `expect_path`: its expectation from the exit code (`None` where it has
/// none) and output, compared with the recorded one, if any.
pub fn execute_test(
    path: String,
    expect_path: String,
    status: Option<i32>,
    stdout: String,
    stderr: String,
    recorded: Option<String>,
) -> (r: TestResult)
    ensures
        r.state@ == crate::executor::results::classified(
            expect_string(
                match status {
                    Some(c) => c as int,
                    None => crate::executor::test::NO_EXIT_CODE as int,
                },
                stdout@,
                stderr@,
            ),
            opt_view(recorded),
        ),
        r.path == path,
        r.expect_path == expect_path,
        !r.saved,
{
    let code = match status {
        Some(c) => c,
        None => crate::executor::test::NO_EXIT_CODE,
    };
    TestResult::finish(path, expect_path, code, stdout, stderr, recorded)
}

/// For each path, whether the regex's verdict on `<suite-name>:<path>` is
/// `keep`.
pub open spec fn match_mask(name: Seq<char>, paths: Seq<String>, re: regex::Regex, keep: bool) -> Seq<bool> {
    Seq::new(paths.len(), |i: int| regex_matches(re, name + ":"@ + paths[i]@) == keep)
}

impl TestSuite {
    /// Keeps the paths for which `keep` holds of whether the regex matches
    /// `<suite-name>:<path>`, in order.
    fn retain_matching(self, re: &regex::Regex, keep: bool) -> (r: Self)
        ensures
            r.name == self.name,
            r.cmd == self.cmd,
            r.expect_dir == self.expect_dir,
            r.paths@ == select(self.paths@, match_mask(self.name@, self.paths@, *re, keep)),
    {
        let ghost full = match_mask(self.name@, self.paths@, *re, keep);
        let TestSuite { name, paths, cmd, expect_dir } = self;
        let mut kept: Vec<String> = Vec::new();
        let mut i: usize = 0;
        while i < paths.len()
            invariant
                i <= paths.len(),
                full == match_mask(name@, paths@, *re, keep),
                kept@ == select(paths@.subrange(0, i as int), full.subrange(0, i as int)),
            decreases paths.len() - i,
        {
            let label = filter_label(name.as_str(), paths[i].as_str());
            let take = regex_is_match(re, label.as_str()) == keep;
            let ghost pre = paths@.subrange(0, i as int);
            if take {
                kept.push(paths[i].clone());
            }
            proof {
                let next = paths@.subrange(0, i + 1);
                assert(next.drop_last() =~= pre);
                assert(full.subrange(0, i + 1).drop_last() =~= full.subrange(0, i as int));
                assert(full[i as int] == take);
            }
            i = i + 1;
        }
        proof {
            assert(paths@.subrange(0, paths@.len() as int) =~= paths@);
            assert(full.subrange(0, paths@.len() as int) =~= full);
        }
        TestSuite { name, paths: kept, cmd, expect_dir }
    }

    /// Removes the paths whose `<suite-name>:<path>` matches the regex, if
    /// one is given.
    pub fn with_exclude_filter(self, excl: Option<&regex::Regex>) -> (r: Self)
        ensures
            r.name == self.name,
            r.cmd == self.cmd,
            r.expect_dir == self.expect_dir,
            excl matches Some(re) ==> r.paths@ == select(self.paths@, match_mask(self.name@, self.paths@, *re, false)),
            excl is None ==> r == self,
    {
        match excl {
            Some(re) => self.retain_matching(re, false),
            None => self,
        }
    }

    /// Keeps the paths whose `<suite-name>:<path>` matches the regex, if one
    /// is given.
    pub fn with_include_filter(self, incl: Option<&regex::Regex>) -> (r: Self)
        ensures
            r.name == self.name,
            r.cmd == self.cmd,
            r.expect_dir == self.expect_dir,
            incl matches Some(re) ==> r.paths@ == select(self.paths@, match_mask(self.name@, self.paths@, *re, true)),
            incl is None ==> r == self,
    {
        match incl {
            Some(re) => self.retain_matching(re, true),
            None => self,
        }
    }

    /// Gathers the outcomes of this suite's tests, one per path in any
    /// order, into the suite's results and errors.
    pub fn collect_results(name: String, num_tests: usize, outcomes: Vec<Result<TestResult, RuntError>>) -> (r: TestSuiteResult)
        requires
            num_tests <= i32::MAX,
        ensures
            r.0 == name,
            r.1 == num_tests as i32,
            r.2@ == outcomes.oks(),
            r.3@ == outcomes.errs(),
    {
        let (results, errors) = outcomes.partition_results();
        TestSuiteResult(name, num_tests as i32, results, errors)
    }
}

} // verus!

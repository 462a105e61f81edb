//! A single test of the per-suite runner.
use vstd::prelude::*;
use crate::executor::test::{expect_string, opt_view, sibling_path, substitute};
use crate::test_results::TestResult;

verus! {

/// A test to be run: its path, its command and where its expect file lives.
pub struct Test {
    /// Path of the test to be run.
    path: String,
    /// Command to be executed for the test.
    cmd: String,
    /// Directory of the expect file; by default the directory of `path`.
    expect_dir: Option<String>,
}

impl Test {
    /// Path of the test.
    pub closed spec fn spec_path(&self) -> Seq<char> {
        self.path@
    }

    /// Command template of the test.
    pub closed spec fn spec_cmd(&self) -> Seq<char> {
        self.cmd@
    }

    /// Directory of the expect file, if one is set.
    pub closed spec fn spec_expect_dir(&self) -> Option<Seq<char>> {
        opt_view(self.expect_dir)
    }

    /// Formats the outcome of a finished command as an expectation text.
    pub fn format_expect_string(status: i32, stdout: &str, stderr: &str) -> (r: String)
        ensures
            r@ == expect_string(status as int, stdout@, stderr@),
    {
        crate::executor::Test::format_expect_string(status, stdout, stderr)
    }

    /// A test of the file at `path`, run with the command `cmd`.
    pub fn new(path: String, cmd: String, expect_dir: Option<String>) -> (r: Self)
        ensures
            r.spec_path() == path@,
            r.spec_cmd() == cmd@,
            r.spec_expect_dir() == opt_view(expect_dir),
    {
        Self { path, cmd, expect_dir }
    }

    fn as_unit(&self) -> (r: crate::executor::Test)
        ensures
            r.path@ == self.path@,
            r.cmd@ == self.cmd@,
            opt_view(r.expect_dir) == opt_view(self.expect_dir),
    {
        let expect_dir = match &self.expect_dir {
            Some(d) => Some(d.clone()),
            None => None,
        };
        crate::executor::Test { path: self.path.clone(), cmd: self.cmd.clone(), expect_dir, test_suite: 0, timeout: 0 }
    }

    /// Path of the expect file. `None` where an expect directory is set and
    /// the path names no file.
    pub fn expect_file(&self) -> (r: Option<String>)
        ensures
            opt_view(r) == sibling_path(self.spec_path(), self.spec_expect_dir(), "expect"@),
    {
        self.as_unit().expect_file()
    }

    /// The shell command of this test: the command template with each `{}`
    /// replaced by the test's path.
    pub fn construct_command(&self) -> (r: String)
        ensures
            r@ == substitute(self.spec_cmd(), self.spec_path()),
    {
        self.as_unit().construct_command()
    }

    /// The result of this test once its command finished with the exit code
    /// `status` (`None` where it has none) and the given output, compared
    /// with the contents of its expect file at `expect_path`, if it exists.
    pub fn completed(
        self,
        expect_path: String,
        status: Option<i32>,
        stdout: String,
        stderr: String,
        recorded: Option<String>,
    ) -> (r: TestResult)
        ensures
            r.state@ == crate::executor::results::classified(
                expect_string(
                    match status {
                        Some(c) => c as int,
                        None => crate::executor::test::NO_EXIT_CODE as int,
                    },
                    stdout@,
                    stderr@,
                ),
                opt_view(recorded),
            ),
            r.path@ == self.spec_path(),
            r.expect_path == expect_path,
            !r.saved,
    {
        let code = match status {
            Some(c) => c,
            None => crate::executor::test::NO_EXIT_CODE,
        };
        TestResult::finish(self.path, expect_path, code, stdout, stderr, recorded)
    }
}

} // verus!

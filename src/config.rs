//! The test configuration of the per-suite runner, once read.
use vstd::prelude::*;
use crate::test_suite::TestSuite;

verus! {

/// Configuration for a single run.
pub struct Config {
    /// Version of the tool this configuration is compatible with.
    pub ver: String,
    /// Test suite configurations.
    pub tests: Vec<SuiteConfig>,
}

/// Configuration for a test suite.
pub struct SuiteConfig {
    /// Name of this suite.
    pub name: String,
    /// Glob patterns of the input files.
    pub paths: Vec<String>,
    /// Command to execute. The pattern `{}` in this string is replaced with
    /// the matching path.
    pub cmd: String,
    /// Optional directory to store the generated expect files.
    pub expect_dir: Option<String>,
}

impl TestSuite {
    /// The suite of a configuration, with the paths that its patterns
    /// matched.
    pub fn from_config(conf: SuiteConfig, paths: Vec<String>) -> (r: TestSuite)
        ensures
            r.name == conf.name,
            r.paths == paths,
            r.cmd == conf.cmd,
            r.expect_dir == conf.expect_dir,
    {
        TestSuite { name: conf.name, paths, cmd: conf.cmd, expect_dir: conf.expect_dir }
    }
}

} // verus!

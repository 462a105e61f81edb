//! The test configuration of a `runt.toml` file, once read.
use vstd::prelude::*;
use crate::errors::RuntError;
use crate::executor::suite::{self, DEFAULT_TIMEOUT};

verus! {

/// Configuration for a single run.
pub struct Config {
    /// Version of the tool this configuration is compatible with.
    pub ver: String,
    /// Test suite configurations.
    pub tests: Vec<SuiteConfig>,
}

/// Configuration for a test suite.
pub struct SuiteConfig {
    /// Name of this suite.
    pub name: String,
    /// Glob patterns of the input files.
    pub paths: Vec<String>,
    /// Command to execute. The pattern `{}` in this string is replaced with
    /// the matching path.
    pub cmd: String,
    /// Optional directory to store the generated expect files.
    pub expect_dir: Option<String>,
    /// Optional timeout of each test, in seconds.
    pub timeout: Option<u64>,
}

/// The message of a configuration that asks for another version.
pub open spec fn version_mismatch_message(wanted: Seq<char>, tool: Seq<char>) -> Seq<char> {
    "Runt version mismatch. Configuration requires: "@ + wanted + ", tool version: "@ + tool
        + ".\nRun `cargo install runt` to get the latest version of runt."@
}

impl Config {
    /// Checks that the configuration asks for the version of the running
    /// tool.
    pub fn check_version(&self, tool_version: &str) -> (r: Result<(), RuntError>)
        ensures
            r is Ok <==> self.ver@ == tool_version@,
            r is Err ==> r->Err_0.0@ == version_mismatch_message(self.ver@, tool_version@),
    {
        if self.ver == tool_version.to_owned() {
            Ok(())
        } else {
            let msg = "Runt version mismatch. Configuration requires: ".to_owned().concat(
                self.ver.as_str(),
            ).concat(", tool version: ").concat(tool_version).concat(
                ".\nRun `cargo install runt` to get the latest version of runt.",
            );
            Err(RuntError(msg))
        }
    }
}

impl suite::Suite {
    /// The suite of a configuration, with the paths that its patterns
    /// matched. The timeout defaults to `DEFAULT_TIMEOUT` seconds.
    pub fn from_config(conf: SuiteConfig, paths: Vec<String>) -> (r: suite::Suite)
        ensures
            r.paths == paths,
            r.config.name == conf.name,
            r.config.cmd == conf.cmd,
            r.config.expect_dir == conf.expect_dir,
            r.config.timeout == match conf.timeout {
                Some(t) => t,
                None => DEFAULT_TIMEOUT,
            },
    {
        let timeout = match conf.timeout {
            Some(t) => t,
            None => DEFAULT_TIMEOUT,
        };
        suite::Suite {
            paths,
            config: suite::Config { name: conf.name, cmd: conf.cmd, expect_dir: conf.expect_dir, timeout },
        }
    }
}

} // verus!

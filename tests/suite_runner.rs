use runt::cli::{OnlyOpt, Opts};
use runt::config::SuiteConfig;
use runt::errors::RuntError;
use runt::style::plain_text;
use runt::test::Test;
use runt::test_results::{expect_file, to_expect_string, TestResult, TestState, TestSuiteResult};
use runt::test_suite::{construct_command, execute_test, TestSuite};

fn plain_opts() -> Opts {
    Opts {
        dir: ".".to_string(),
        diff: false,
        save: false,
        dry_run: false,
        verbose: false,
        ignore_skip: false,
        post_filter: None,
        exclude_filter: None,
        include_filter: None,
        jobs_limit: None,
        max_futures: None,
        version: false,
    }
}

fn finished(path: &str, out: &str, recorded: Option<&str>) -> TestResult {
    TestResult::finish(
        path.to_string(),
        format!("{}.expect", path),
        0,
        out.to_string(),
        String::new(),
        recorded.map(|r| r.to_string()),
    )
}

#[test]
fn old_expect_string_matches_new() {
    assert_eq!(to_expect_string(3, "o", "e"), "o---CODE---\n3\n---STDERR---\ne");
    assert_eq!(Test::format_expect_string(0, "x", ""), "x");
}

#[test]
fn old_expect_file_paths() {
    assert_eq!(expect_file(None, "d/t.in"), Some("d/t.expect".to_string()));
    assert_eq!(expect_file(Some("e".to_string()), "d/t.in"), Some("e/t.expect".to_string()));
    let t = Test::new("d/t.in".to_string(), "cat {}".to_string(), None);
    assert_eq!(t.expect_file(), Some("d/t.expect".to_string()));
    assert_eq!(t.construct_command(), "cat d/t.in");
}

#[test]
fn old_test_completion() {
    let t = Test::new("a".to_string(), "printf foo".to_string(), None);
    let r = t.completed("a.expect".to_string(), Some(0), "foo".to_string(), String::new(), None);
    assert_eq!(r.state, TestState::Missing("foo".to_string()));
    assert_eq!(r.stdout, "foo");
}

#[test]
fn old_result_save_and_report() {
    let mut r = finished("p", "new", Some("old"));
    assert_eq!(r.state, TestState::Mismatch("new".to_string(), "old".to_string()));
    assert_eq!(r.text_to_save(), Some("new".to_string()));
    assert!(r.save_results(Ok(())).is_ok());
    assert_eq!(r.report_str(false), "\u{2717} fail - p (saved)");
    assert_eq!(finished("q", "x", Some("x")).report_str(false), "\u{2713} pass - q");
    assert_eq!(finished("m", "x", None).report_str(false), "? miss - m");
}

#[test]
fn old_suite_filter_and_save_all() {
    let suite = TestSuiteResult(
        "S".to_string(),
        3,
        vec![finished("a", "1", None), finished("b", "2", Some("2")), finished("c", "3", Some("4"))],
        vec![],
    );
    let mut missing = suite.only_results(&Some(OnlyOpt::Missing));
    assert_eq!(missing.2.len(), 1);
    assert_eq!(missing.texts_to_save(), vec![Some("1".to_string())]);
    missing.save_all(vec![Ok(())]);
    assert!(missing.2[0].saved);
    let mut failing = TestSuiteResult("S".to_string(), 1, vec![finished("z", "1", None)], vec![]);
    failing.save_all(vec![Err(RuntError("no".to_string()))]);
    assert!(!failing.2[0].saved);
    assert_eq!(failing.3[0].message(), "z.expect: no.");
}

#[test]
fn old_suite_report_counts() {
    let suite = TestSuiteResult(
        "S".to_string(),
        2,
        vec![finished("a", "1", None), finished("b", "2", Some("2"))],
        vec![RuntError("bad".to_string())],
    );
    let (spans, pass, fail, miss) = suite.test_suite_results(&plain_opts());
    assert_eq!((pass, fail, miss), (1, 0, 1));
    assert_eq!(
        plain_text(&spans),
        "S (2 tests)\n  ? miss - a\n  \u{2713} pass - b\n  runt errors\n    bad\n"
    );
}

#[test]
fn old_suite_filters_and_collect() {
    let conf = SuiteConfig {
        name: "T".to_string(),
        paths: vec![],
        cmd: "cat {}".to_string(),
        expect_dir: None,
    };
    let suite = TestSuite::from_config(conf, vec!["x.txt".to_string(), "y.md".to_string()]);
    let re = regex::Regex::new("md$").unwrap();
    let only_md = TestSuite {
        name: suite.name.clone(),
        paths: suite.paths.clone(),
        cmd: suite.cmd.clone(),
        expect_dir: None,
    }
    .with_include_filter(Some(&re));
    assert_eq!(only_md.paths, vec!["y.md".to_string()]);
    let no_md = suite.with_exclude_filter(Some(&re));
    assert_eq!(no_md.paths, vec!["x.txt".to_string()]);
    assert_eq!(construct_command("wc {}", "f"), "wc f");
    let ok = execute_test("f".to_string(), "f.expect".to_string(), Some(0), "z".to_string(), String::new(), Some("z".to_string()));
    assert_eq!(ok.state, TestState::Correct);
    let collected = TestSuite::collect_results("T".to_string(), 2, vec![Ok(ok), Err(RuntError("e".to_string()))]);
    assert_eq!(collected.1, 2);
    assert_eq!(collected.2.len(), 1);
    assert_eq!(collected.3.len(), 1);
}

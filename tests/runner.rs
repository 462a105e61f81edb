use runt::cli::{read_path, OnlyOpt, Opts};
use runt::diff::{diff_with_lineno, gen_diff, get_chunks, Lineno, Mode, PrintInfo, Segment};
use runt::errors::{RichResult, RichVec, RuntError};
use runt::executor::context::{Executor, Status};
use runt::executor::results::{self, classify, State};
use runt::executor::suite::{filter_label, keep_path, Config, Suite};
use runt::executor::test::{should_skip, RunOutcome};
use runt::executor::{Context, Test};
use runt::picker::toml::{Config as FileConfig, SuiteConfig};
use runt::style::{plain_text, Span, Style};
use runt::text::{i32_text, padded_left, u64_text};

fn opts() -> Opts {
    Opts {
        dir: ".".to_string(),
        diff: false,
        save: false,
        dry_run: false,
        verbose: false,
        ignore_skip: false,
        post_filter: None,
        exclude_filter: None,
        include_filter: None,
        jobs_limit: None,
        max_futures: None,
        version: false,
    }
}

fn unit(path: &str, cmd: &str) -> Test {
    Test { path: path.to_string(), cmd: cmd.to_string(), expect_dir: None, test_suite: 0, timeout: 1 }
}

fn result(state: State) -> results::Test {
    results::Test {
        path: "t/a.txt".to_string(),
        expect_path: "t/a.expect".to_string(),
        state,
        saved: false,
        test_suite: 0,
    }
}

#[test]
fn expect_string_stdout_only() {
    assert_eq!(Test::format_expect_string(0, "foo", ""), "foo");
}

#[test]
fn expect_string_all_sections() {
    assert_eq!(
        Test::format_expect_string(2, "out\n", "err\n"),
        "out\n---CODE---\n2\n---STDERR---\nerr\n"
    );
}

#[test]
fn expect_string_negative_code() {
    assert_eq!(Test::format_expect_string(-1, "", ""), "---CODE---\n-1\n");
}

#[test]
fn expect_string_empty() {
    assert_eq!(Test::format_expect_string(0, "", ""), "");
}

#[test]
fn printf_without_expect_file_is_missing_then_correct_after_save() {
    let t = unit("t/a.txt", "printf foo");
    assert_eq!(t.construct_command(), "printf foo");
    let mut r = t.completed("t/a.expect".to_string(), Some(0), "foo", "", None);
    assert_eq!(r.state, State::Missing("foo".to_string()));
    let written = r.text_to_save();
    assert_eq!(written, Some("foo".to_string()));
    assert!(!r.saved);
    assert!(r.save_results(Ok(())).is_ok());
    assert!(r.saved);
    let again = unit("t/a.txt", "printf foo").completed("t/a.expect".to_string(), Some(0), "foo", "", written);
    assert_eq!(again.state, State::Correct);
}

#[test]
fn mismatch_saved_then_rerun_is_correct() {
    let mut r = unit("x", "c").completed("x.expect".to_string(), Some(1), "a", "", Some("old".to_string()));
    assert_eq!(
        r.state,
        State::Mismatch("a---CODE---\n1\n".to_string(), "old".to_string())
    );
    let written = r.text_to_save();
    assert!(r.save_results(Ok(())).is_ok());
    let again = unit("x", "c").completed("x.expect".to_string(), Some(1), "a", "", written);
    assert_eq!(again.state, State::Correct);
}

#[test]
fn correct_stays_correct_and_saves_nothing() {
    let mut r = unit("x", "c").completed("x.expect".to_string(), Some(0), "same", "", Some("same".to_string()));
    assert_eq!(r.state, State::Correct);
    assert_eq!(r.text_to_save(), None);
    assert!(r.save_results(Ok(())).is_ok());
    assert!(!r.saved);
    let again = unit("x", "c").completed("x.expect".to_string(), Some(0), "same", "", Some("same".to_string()));
    assert_eq!(again.state, State::Correct);
}

#[test]
fn missing_exit_code_counts_as_minus_one() {
    let r = unit("x", "c").completed("x.expect".to_string(), None, "", "", None);
    assert_eq!(r.state, State::Missing("---CODE---\n-1\n".to_string()));
}

#[test]
fn timeout_counts_one_timeout_and_nothing_remains() {
    let r = unit("t/slow.txt", "sleep 5").timed_out("t/slow.expect".to_string());
    assert_eq!(r.state, State::Timeout);
    let mut st = Status::new(1);
    st.update(&r.state);
    assert_eq!(st.timeout, 1);
    assert_eq!(st.remain, 0);
    assert_eq!(st.pass + st.fail + st.miss + st.skip, 0);
}

#[test]
fn skipped_result_is_skip() {
    let r = unit("t/a.txt", "c").skipped("t/a.skip".to_string());
    assert_eq!(r.state, State::Skip);
    assert_eq!(r.expect_path, "t/a.skip");
}

#[test]
fn counters_add_up_after_each_result() {
    let states = vec![
        State::Correct,
        State::Timeout,
        State::Skip,
        State::Missing("m".to_string()),
        State::Mismatch("a".to_string(), "b".to_string()),
    ];
    let mut st = Status::new(6);
    for s in &states {
        st.update(s);
        assert_eq!(st.remain + st.pass + st.fail + st.timeout + st.miss + st.skip, 6);
    }
    assert_eq!((st.pass, st.fail, st.timeout, st.miss, st.skip, st.remain), (1, 1, 1, 1, 1, 1));
    assert_eq!(st.outcome(None), 3);
    assert_eq!(st.outcome(Some(OnlyOpt::Fail)), 2);
    assert_eq!(st.outcome(Some(OnlyOpt::Missing)), 1);
    assert_eq!(st.outcome(Some(OnlyOpt::Pass)), 0);
}

#[test]
fn summary_line() {
    let mut st = Status::new(3);
    st.update(&State::Correct);
    st.update(&State::Timeout);
    assert_eq!(st.summary(), " 1 passing / 1 failing / 0 missing / 0 skipped / 1 remaining");
    let spans = st.summary_spans();
    assert_eq!(spans[1].style, Style::BoldGreen);
    assert_eq!(spans[1].text, "1");
}

#[test]
fn classify_outcomes() {
    assert_eq!(classify("a".to_string(), None), State::Missing("a".to_string()));
    assert_eq!(classify("a".to_string(), Some("a".to_string())), State::Correct);
    assert_eq!(
        classify("a".to_string(), Some("b".to_string())),
        State::Mismatch("a".to_string(), "b".to_string())
    );
}

#[test]
fn fail_filter_keeps_only_mismatches() {
    let suite = results::Suite::new(
        "s".to_string(),
        4,
        vec![
            result(State::Mismatch("a".to_string(), "b".to_string())),
            result(State::Timeout),
            result(State::Correct),
            result(State::Missing("m".to_string())),
        ],
        vec![],
    );
    let kept = suite.only_results(&Some(OnlyOpt::Fail));
    assert_eq!(kept.results.len(), 1);
    assert!(matches!(kept.results[0].state, State::Mismatch(..)));
}

#[test]
fn no_filter_keeps_everything() {
    let suite = results::Suite::new("s".to_string(), 2, vec![result(State::Timeout), result(State::Correct)], vec![]);
    assert_eq!(suite.only_results(&None).results.len(), 2);
}

#[test]
fn save_and_print_decisions() {
    let mut o = opts();
    let mismatch = result(State::Mismatch("a".to_string(), "b".to_string()));
    let timeout = result(State::Timeout);
    let correct = result(State::Correct);
    assert!(!mismatch.should_save(&o));
    assert!(mismatch.should_print(&o));
    assert!(timeout.should_print(&o));
    assert!(!correct.should_print(&o));
    o.save = true;
    assert!(mismatch.should_save(&o));
    assert!(correct.should_save(&o));
    o.post_filter = Some(OnlyOpt::Fail);
    assert!(mismatch.should_save(&o));
    assert!(!timeout.should_save(&o));
    assert!(!timeout.should_print(&o));
    o.verbose = true;
    assert!(correct.should_print(&o));
}

#[test]
fn report_lines() {
    let mut r = result(State::Missing("foo".to_string()));
    r.saved = true;
    assert_eq!(r.report_str(Some(&"S".to_string()), false), "? S:t/a.txt (saved)");
    assert_eq!(result(State::Timeout).report_str(None, false), "\u{2717} t/a.txt (timeout)");
    assert_eq!(result(State::Correct).report_str(None, false), "\u{2713} t/a.txt");
    let spans = result(State::Correct).report_spans(Some(&"S".to_string()), false);
    assert_eq!(spans[1].style, Style::BoldGreen);
}

#[test]
fn report_with_diff_of_missing() {
    let r = result(State::Missing("foo".to_string()));
    let text = r.report_str(None, true);
    assert!(text.starts_with("? t/a.txt\n"));
    assert!(text.contains("+ foo"));
}

#[test]
fn diff_of_identical_texts_has_no_chunk() {
    let t = "one\ntwo\nthree\nfour\nfive\nsix\n";
    assert_eq!(gen_diff(t, t), "         ~");
}

#[test]
fn diff_of_disjoint_texts_is_one_chunk() {
    let d = gen_diff("a\nb", "c\nd");
    assert_eq!(d.matches('~').count(), 2);
    assert!(d.contains("    1    \u{2502}- a\n"));
    assert!(d.contains("    2    \u{2502}- b\n"));
    assert!(d.contains("        1\u{2502}+ c\n"));
    assert!(d.contains("        2\u{2502}+ d\n"));
}

#[test]
fn diff_line_numbers_per_side() {
    let segs = vec![
        Segment::Same("x".to_string()),
        Segment::Rem("a\nb".to_string()),
        Segment::Add("c".to_string()),
        Segment::Same("y  ".to_string()),
    ];
    let infos = diff_with_lineno(&segs);
    let got: Vec<(Mode, Option<usize>, Option<usize>, String)> =
        infos.iter().map(|p| (p.0, (p.1).0, (p.2).0, p.3.clone())).collect();
    assert_eq!(
        got,
        vec![
            (Mode::Same, Some(1), Some(1), "x".to_string()),
            (Mode::Rem, Some(2), None, "a".to_string()),
            (Mode::Rem, Some(3), None, "b".to_string()),
            (Mode::Add, None, Some(2), "c".to_string()),
            (Mode::Same, Some(4), Some(3), "y".to_string()),
        ]
    );
}

fn info(mode: Mode, n: usize) -> PrintInfo {
    PrintInfo(mode, Lineno(Some(n)), Lineno(Some(n)), format!("l{}", n))
}

#[test]
fn chunks_keep_two_lines_of_context() {
    let mut infos = Vec::new();
    for n in 1..=10 {
        infos.push(info(if n == 5 { Mode::Add } else { Mode::Same }, n));
    }
    let chunks = get_chunks(&infos);
    assert_eq!(chunks.len(), 1);
    let lines: Vec<usize> = chunks[0].iter().map(|p| (p.1).0.unwrap()).collect();
    assert_eq!(lines, vec![3, 4, 5, 6, 7]);
}

#[test]
fn chunks_split_far_apart_changes() {
    let mut infos = Vec::new();
    for n in 1..=12 {
        infos.push(info(if n == 2 || n == 10 { Mode::Rem } else { Mode::Same }, n));
    }
    let chunks = get_chunks(&infos);
    assert_eq!(chunks.len(), 2);
    let first: Vec<usize> = chunks[0].iter().map(|p| (p.1).0.unwrap()).collect();
    let second: Vec<usize> = chunks[1].iter().map(|p| (p.1).0.unwrap()).collect();
    assert_eq!(first, vec![1, 2, 3, 4]);
    assert_eq!(second, vec![8, 9, 10, 11, 12]);
}

#[test]
fn chunks_of_unchanged_lines_are_empty() {
    let infos: Vec<PrintInfo> = (1..=5).map(|n| info(Mode::Same, n)).collect();
    assert!(get_chunks(&infos).is_empty());
}

#[test]
fn long_unchanged_line_is_cut() {
    let long = "x".repeat(100);
    let p = PrintInfo(Mode::Same, Lineno(Some(1)), Lineno(Some(1)), long);
    let expected = format!("    1   1\u{2502}  {} ...\n", "x".repeat(80));
    assert_eq!(p.to_diff(), expected);
    let short = PrintInfo(Mode::Same, Lineno(Some(1)), Lineno(Some(1)), "abc".to_string());
    assert_eq!(short.to_diff(), "    1   1\u{2502}  abc\n");
}

#[test]
fn rendered_added_line() {
    let p = PrintInfo(Mode::Add, Lineno(None), Lineno(Some(12)), "new".to_string());
    assert_eq!(p.to_diff(), "       12\u{2502}+ new\n");
}

#[test]
fn command_substitutes_every_placeholder() {
    assert_eq!(unit("in.txt", "cat {} > {}.out").construct_command(), "cat in.txt > in.txt.out");
    assert_eq!(unit("p", "echo {").construct_command(), "echo {");
}

#[test]
fn expect_and_skip_paths() {
    let t = unit("dir/a.txt", "c");
    assert_eq!(t.expect_file(), Some("dir/a.expect".to_string()));
    assert_eq!(t.skip_file(), Some("dir/a.skip".to_string()));
    let mut o = unit("dir/a.txt", "c");
    o.expect_dir = Some("out".to_string());
    assert_eq!(o.expect_file(), Some("out/a.expect".to_string()));
    let mut bad = unit("..", "c");
    bad.expect_dir = Some("out".to_string());
    assert_eq!(bad.expect_file(), None);
}

#[test]
fn only_option_parsing() {
    assert_eq!(OnlyOpt::from_str("fail").unwrap(), OnlyOpt::Fail);
    assert_eq!(OnlyOpt::from_str("pass").unwrap(), OnlyOpt::Pass);
    assert_eq!(OnlyOpt::from_str("miss").unwrap(), OnlyOpt::Missing);
    let err = OnlyOpt::from_str("missing").unwrap_err();
    assert_eq!(err.message(), "Unknown --only filter. Expected: fail, pass, miss");
}

#[test]
fn path_argument() {
    assert_eq!(read_path("some/dir"), Ok("some/dir".to_string()));
}

#[test]
fn filters_match_suite_and_path() {
    assert_eq!(filter_label("S", "a.txt"), "S:a.txt");
    assert!(keep_path(None, None));
    assert!(!keep_path(Some(false), None));
    assert!(!keep_path(Some(true), Some(true)));
    assert!(keep_path(Some(true), Some(false)));
    let suite = Suite {
        paths: vec!["a.txt".to_string(), "b.txt".to_string(), "c.md".to_string()],
        config: Config { name: "S".to_string(), cmd: "cat {}".to_string(), expect_dir: None, timeout: 5 },
    };
    let incl = regex::Regex::new("txt$").unwrap();
    let excl = regex::Regex::new("S:b").unwrap();
    let kept = suite.with_filters(Some(&incl), Some(&excl));
    assert_eq!(kept.paths, vec!["a.txt".to_string()]);
}

#[test]
fn context_flattens_suites_in_order() {
    let s0 = Suite {
        paths: vec!["a".to_string(), "b".to_string()],
        config: Config { name: "zero".to_string(), cmd: "c0 {}".to_string(), expect_dir: None, timeout: 3 },
    };
    let s1 = Suite {
        paths: vec!["c".to_string()],
        config: Config {
            name: "one".to_string(),
            cmd: "c1 {}".to_string(),
            expect_dir: Some("e".to_string()),
            timeout: 7,
        },
    };
    let ctx = Context::from(vec![s0, s1], 50);
    let Executor { tests, max_futures } = ctx.executor;
    assert_eq!(max_futures, 50);
    let got: Vec<(String, String, u64, u64)> =
        tests.iter().map(|t| (t.path.clone(), t.cmd.clone(), t.test_suite, t.timeout)).collect();
    assert_eq!(
        got,
        vec![
            ("a".to_string(), "c0 {}".to_string(), 0, 3),
            ("b".to_string(), "c0 {}".to_string(), 0, 3),
            ("c".to_string(), "c1 {}".to_string(), 1, 7),
        ]
    );
    assert_eq!(ctx.configs[1].name, "one");
}

#[test]
fn suite_from_configuration_defaults_timeout() {
    let conf = SuiteConfig {
        name: "S".to_string(),
        paths: vec!["*.txt".to_string()],
        cmd: "cat {}".to_string(),
        expect_dir: None,
        timeout: None,
    };
    let s = Suite::from_config(conf, vec!["a.txt".to_string()]);
    assert_eq!(s.config.timeout, 1200);
    assert_eq!(s.paths, vec!["a.txt".to_string()]);
}

#[test]
fn version_check() {
    let c = FileConfig { ver: "0.2.0".to_string(), tests: vec![] };
    assert!(c.check_version("0.2.0").is_ok());
    let err = c.check_version("0.3.0").unwrap_err();
    assert!(err.message().starts_with("Runt version mismatch. Configuration requires: 0.2.0, tool version: 0.3.0."));
}

#[test]
fn suite_report_and_counts() {
    let suite = results::Suite::new(
        "S".to_string(),
        3,
        vec![result(State::Correct), result(State::Timeout), result(State::Missing("m".to_string()))],
        vec![RuntError("boom".to_string())],
    );
    let (spans, pass, fail, miss, timeout) = suite.test_suite_results(&opts());
    assert_eq!((pass, fail, miss, timeout), (1, 0, 1, 1));
    assert_eq!(
        plain_text(&spans),
        "S (3 tests)\n  \u{2713} t/a.txt\n  \u{2717} t/a.txt (timeout)\n  ? t/a.txt\n  runt errors\n    boom\n"
    );
}

#[test]
fn collapse_nested_results() {
    let ok: Result<Result<u8, String>, String> = Ok(Ok(3));
    let folded: Result<u8, String> = ok.collapse();
    assert_eq!(folded, Ok(3));
    let inner: Result<Result<u8, String>, String> = Ok(Err("in".to_string()));
    let folded: Result<u8, String> = inner.collapse();
    assert_eq!(folded, Err("in".to_string()));
    let deep: Result<Result<Result<u8, String>, String>, String> = Ok(Ok(Err("deep".to_string())));
    let folded: Result<u8, String> = deep.collapse();
    assert_eq!(folded, Err("deep".to_string()));
}

#[test]
fn partition_keeps_order() {
    let v: Vec<Result<u8, String>> = vec![Ok(1), Err("x".to_string()), Ok(2), Err("y".to_string())];
    let (oks, errs) = v.partition_results();
    assert_eq!(oks, vec![1, 2]);
    assert_eq!(errs, vec!["x".to_string(), "y".to_string()]);
}

#[test]
fn decimal_and_padding() {
    assert_eq!(u64_text(0), "0");
    assert_eq!(u64_text(1234567), "1234567");
    assert_eq!(i32_text(-42), "-42");
    assert_eq!(i32_text(i32::MIN), "-2147483648");
    assert_eq!(padded_left("7", 3), "  7");
    assert_eq!(padded_left("12345", 3), "12345");
}

#[test]
fn plain_text_joins_spans() {
    let spans = vec![Span::new(Style::Red, "a"), Span::new(Style::Plain, "b")];
    assert_eq!(plain_text(&spans), "ab");
}

#[test]
fn failed_write_leaves_result_unsaved() {
    let mut r = result(State::Missing("x".to_string()));
    let err = r.save_results(Err(RuntError("denied".to_string()))).unwrap_err();
    assert_eq!(err.message(), "t/a.expect: denied.");
    assert!(!r.saved);
}

#[test]
fn skip_decision() {
    assert!(should_skip(true, false));
    assert!(!should_skip(true, true));
    assert!(!should_skip(false, false));
}

#[test]
fn execute_test_outcomes() {
    let skipped = unit("t/a.txt", "c").execute_test(true, false, RunOutcome::NotRun).unwrap();
    assert_eq!(skipped.state, State::Skip);
    assert_eq!(skipped.expect_path, "t/a.skip");
    let slow = unit("t/a.txt", "sleep 5").execute_test(false, false, RunOutcome::TimedOut).unwrap();
    assert_eq!(slow.state, State::Timeout);
    assert_eq!(slow.expect_path, "t/a.expect");
    let done = unit("t/a.txt", "printf foo")
        .execute_test(
            true,
            true,
            RunOutcome::Finished { status: Some(0), stdout: "foo".to_string(), stderr: String::new(), recorded: None },
        )
        .unwrap();
    assert_eq!(done.state, State::Missing("foo".to_string()));
    assert!(unit("t/a.txt", "c").execute_test(false, false, RunOutcome::NotRun).is_err());
}

#[test]
fn record_counts_and_decides_printing() {
    let o = opts();
    let mut st = Status::new(1);
    assert_eq!(st.record(&result(State::Correct), &o).unwrap(), false);
    assert_eq!((st.pass, st.remain), (1, 0));
    assert!(st.record(&result(State::Timeout), &o).is_err());
    assert_eq!((st.pass, st.timeout, st.remain), (1, 0, 0));
}

#[test]
fn errors_reported_per_suite() {
    let mk = |name: &str| Suite {
        paths: vec![],
        config: Config { name: name.to_string(), cmd: "c".to_string(), expect_dir: None, timeout: 1 },
    };
    let ctx = Context::from(vec![mk("A"), mk("B"), mk("C")], 4);
    let errors = vec![(2, RuntError("late".to_string())), (0, RuntError("early".to_string()))];
    assert_eq!(
        plain_text(&ctx.error_report(&errors)),
        "A\n  runt errors\n    early\nC\n  runt errors\n    late\n"
    );
}

#[test]
fn equal_texts_render_the_bare_marker() {
    assert_eq!(gen_diff("", ""), "         ~");
    assert_eq!(gen_diff("a\n", "a\n"), "         ~");
}

#[test]
fn suite_report_with_diffs() {
    let mut o = opts();
    o.diff = true;
    let suite = results::Suite::new("S".to_string(), 1, vec![result(State::Missing("foo".to_string()))], vec![]);
    let (spans, _, _, miss, _) = suite.test_suite_results(&o);
    assert_eq!(miss, 1);
    let text = plain_text(&spans);
    assert!(text.starts_with("S (1 tests)\n  ? t/a.txt\n"));
    assert!(text.contains("+ foo"));
    assert!(text.ends_with("~\n"));
}

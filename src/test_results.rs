//! Results of the per-suite runner: each test's captured output and its
//! comparison with the expect file.
use vstd::prelude::*;
use crate::cli::{OnlyOpt, Opts};
use crate::errors::RuntError;
use crate::executor::results::{StateView, classified, diff_sides, errors_body, errors_section, is_diff_of, kept, save_text, suite_heading, wrapped};
use crate::text::{int_digits, i32_text};
use crate::executor::test::{expect_string, opt_view, sibling_path};
use crate::style::{Span, Style, span_views, plain_of, plain_text};
use crate::diff::gen_diff_spans;

verus! {

/// The outcome of comparing a test's output with its expect file.
#[derive(Debug, PartialEq)]
pub enum TestState {
    /// The output matched the expect file.
    Correct,
    /// The expect file is missing. Holds the generated expectation.
    Missing(String),
    /// The output differs from the expect file. Holds the generated
    /// expectation and the contents of the expect file.
    Mismatch(String, String),
}

impl View for TestState {
    type V = StateView;

    open spec fn view(&self) -> StateView {
        match self {
            TestState::Correct => StateView::Correct,
            TestState::Missing(e) => StateView::Missing(e@),
            TestState::Mismatch(e, c) => StateView::Mismatch(e@, c@),
        }
    }
}

/// The result of one test, with the output it captured.
#[derive(Debug)]
pub struct TestResult {
    /// Path of the test.
    pub path: String,
    /// Location of the expect file.
    pub expect_path: String,
    /// Exit code of the test.
    pub status: i32,
    /// Standard output captured from the test.
    pub stdout: String,
    /// Standard error captured from the test.
    pub stderr: String,
    /// Outcome of the comparison.
    pub state: TestState,
    /// Whether the expect file was written for this result.
    pub saved: bool,
}

/// Formats the outcome of a finished command as an expectation text.
pub fn to_expect_string(status: i32, stdout: &str, stderr: &str) -> (r: String)
    ensures
        r@ == expect_string(status as int, stdout@, stderr@),
{
    crate::executor::Test::format_expect_string(status, stdout, stderr)
}

/// Path of the expect file of the test at `path`: next to it, or in
/// `expect_dir` if one is given. `None` where a directory is given and the
/// path names no file.
pub fn expect_file(expect_dir: Option<String>, path: &str) -> (r: Option<String>)
    ensures
        opt_view(r) == sibling_path(path@, opt_view(expect_dir), "expect"@),
{
    let t = crate::executor::Test {
        path: path.to_owned(),
        cmd: String::new(),
        expect_dir,
        test_suite: 0,
        timeout: 0,
    };
    t.expect_file()
}

/// Compares a generated expectation with the recorded one, if any.
pub fn compare(expect: String, recorded: Option<String>) -> (r: TestState)
    ensures
        r@ == classified(expect@, opt_view(recorded)),
{
    match recorded {
        None => TestState::Missing(expect),
        Some(contents) => if contents == expect {
            TestState::Correct
        } else {
            TestState::Mismatch(expect, contents)
        },
    }
}

/// The report line of a result: `? miss - `, `✓ pass - ` or `✗ fail - `
/// and the path, in yellow, green or red, then `(saved)` for a saved
/// missing or mismatched result.
pub open spec fn result_head(s: StateView, path: Seq<char>, saved: bool) -> Seq<(Style, Seq<char>)> {
    match s {
        StateView::Missing(_) => seq![(Style::Yellow, "? miss - "@), (Style::Yellow, path)] + if saved {
            seq![(Style::Dimmed, " (saved)"@)]
        } else {
            Seq::empty()
        },
        StateView::Mismatch(..) => seq![(Style::Red, "\u{2717} fail - "@), (Style::Red, path)] + if saved {
            seq![(Style::Dimmed, " (saved)"@)]
        } else {
            Seq::empty()
        },
        _ => seq![(Style::Green, "\u{2713} pass - "@), (Style::Green, path)],
    }
}

/// Whether `r` is the report of a result: its report line, then, if diffs
/// are shown and the result has one, a newline and the diff.
pub open spec fn is_result_report(r: Seq<(Style, Seq<char>)>, s: StateView, path: Seq<char>, saved: bool, show_diff: bool) -> bool {
    let head = result_head(s, path, saved);
    &&& head.len() <= r.len()
    &&& r.subrange(0, head.len() as int) == head
    &&& match diff_sides(s) {
        Some((o, n)) if show_diff => {
            &&& r.len() > head.len()
            &&& r[head.len() as int] == (Style::Plain, "\n"@)
            &&& is_diff_of(r.subrange(head.len() as int + 1, r.len() as int), o, n)
        },
        _ => r.len() == head.len(),
    }
}

impl TestResult {
    /// The result of a finished test: its expectation from the exit code and
    /// output, compared with the contents of its expect file, if one exists.
    pub fn finish(
        path: String,
        expect_path: String,
        status: i32,
        stdout: String,
        stderr: String,
        recorded: Option<String>,
    ) -> (r: TestResult)
        ensures
            r.state@ == classified(expect_string(status as int, stdout@, stderr@), opt_view(recorded)),
            r.path == path,
            r.expect_path == expect_path,
            r.status == status,
            r.stdout == stdout,
            r.stderr == stderr,
            !r.saved,
    {
        let expect = to_expect_string(status, stdout.as_str(), stderr.as_str());
        let state = compare(expect, recorded);
        TestResult { path, expect_path, status, stdout, stderr, state, saved: false }
    }

    /// The text to write to this result's expect file: the generated
    /// expectation of a missing or mismatched result; nothing for a pass.
    pub fn text_to_save(&self) -> (r: Option<String>)
        ensures
            opt_view(r) == save_text(self.state@),
    {
        match &self.state {
            TestState::Correct => None,
            TestState::Missing(expect) | TestState::Mismatch(expect, _) => Some(expect.clone()),
        }
    }

    /// Records how writing the expect file went. The result is marked saved
    /// only when it had a text to save and the write succeeded; a failed
    /// write gives an error that names the expect file.
    pub fn save_results(&mut self, written: Result<(), RuntError>) -> (r: Result<(), RuntError>)
        ensures
            r is Ok <==> written is Ok,
            written is Err ==> r->Err_0.0@ == save_error(old(self).expect_path@, written->Err_0.0@),
            final(self).saved == (old(self).saved || (written is Ok && save_text(old(self).state@) is Some)),
            final(self).state == old(self).state,
            final(self).path == old(self).path,
            final(self).expect_path == old(self).expect_path,
    {
        match written {
            Ok(()) => {
                if !matches!(self.state, TestState::Correct) {
                    self.saved = true;
                }
                Ok(())
            },
            Err(e) => {
                let msg = self.expect_path.clone().concat(": ").concat(e.0.as_str()).concat(".");
                Err(RuntError(msg))
            },
        }
    }

    /// The report of this result as spans, with its diff when `show_diff`
    /// is set and the result is missing or mismatched.
    pub fn report_spans(&self, show_diff: bool) -> (r: Vec<Span>)
        ensures
            is_result_report(span_views(r@), self.state@, self.path@, self.saved, show_diff),
    {
        let mut r: Vec<Span> = Vec::new();
        match &self.state {
            TestState::Missing(_) => {
                r.push(Span::new(Style::Yellow, "? miss - "));
                r.push(Span::new(Style::Yellow, self.path.as_str()));
            },
            TestState::Correct => {
                r.push(Span::new(Style::Green, "\u{2713} pass - "));
                r.push(Span::new(Style::Green, self.path.as_str()));
            },
            TestState::Mismatch(..) => {
                r.push(Span::new(Style::Red, "\u{2717} fail - "));
                r.push(Span::new(Style::Red, self.path.as_str()));
            },
        }
        if self.saved && !matches!(self.state, TestState::Correct) {
            r.push(Span::new(Style::Dimmed, " (saved)"));
        }
        let ghost head = result_head(self.state@, self.path@, self.saved);
        assert(span_views(r@) =~= head);
        if show_diff {
            let diff = match &self.state {
                TestState::Missing(expect) => Some(gen_diff_spans("", expect.as_str())),
                TestState::Mismatch(expect, contents) => Some(gen_diff_spans(contents.as_str(), expect.as_str())),
                TestState::Correct => None,
            };
            if let Some(mut d) = diff {
                let ghost dv = span_views(d@);
                r.push(Span::new(Style::Plain, "\n"));
                r.append(&mut d);
                proof {
                    assert(span_views(r@).subrange(0, head.len() as int) =~= head);
                    assert(span_views(r@).subrange(head.len() as int + 1, span_views(r@).len() as int) =~= dv);
                    reveal_strlit("");
                    assert(""@ =~= Seq::<char>::empty());
                }
            }
        }
        proof {
            assert(span_views(r@).subrange(0, head.len() as int) =~= head);
        }
        r
    }

    /// The report of this result, without styles.
    pub fn report_str(&self, show_diff: bool) -> (r: String)
        ensures
            exists|spans: Seq<(Style, Seq<char>)>|
                is_result_report(spans, self.state@, self.path@, self.saved, show_diff) && r@ == plain_of(spans),
    {
        plain_text(&self.report_spans(show_diff))
    }
}

/// The results that an optional post-filter keeps, in order.
pub open spec fn kept_results(only: Option<OnlyOpt>, results: Seq<TestResult>) -> Seq<TestResult>
    decreases results.len(),
{
    if results.len() == 0 {
        Seq::empty()
    } else if kept(only, results[0].state@) {
        seq![results[0]] + kept_results(only, results.drop_first())
    } else {
        kept_results(only, results.drop_first())
    }
}

/// The message of a failed write of the expect file at `path`.
pub open spec fn save_error(path: Seq<char>, msg: Seq<char>) -> Seq<char> {
    path + ": "@ + msg + "."@
}

/// The messages of the failed writes: one for each result that had a text
/// to save and whose write failed, in order.
pub open spec fn save_failures(results: Seq<TestResult>, written: Seq<Result<(), RuntError>>) -> Seq<Seq<char>>
    decreases results.len(),
{
    if results.len() == 0 || written.len() == 0 {
        Seq::empty()
    } else {
        save_failures(results.drop_last(), written.drop_last()) + match (
            save_text(results.last().state@),
            written.last(),
        ) {
            (Some(_), Err(e)) => seq![save_error(results.last().expect_path@, e.0@)],
            _ => Seq::empty(),
        }
    }
}

/// The messages of errors.
pub open spec fn messages(errors: Seq<RuntError>) -> Seq<Seq<char>> {
    errors.map_values(|e: RuntError| e.0@)
}

/// Result of running a test suite: its name, its number of paths, the
/// results of the tests that ran, and the errors of those that could not.
pub struct TestSuiteResult(pub String, pub i32, pub Vec<TestResult>, pub Vec<RuntError>);

impl TestSuiteResult {
    /// Keeps the results that the post-filter selects, in order; all of
    /// them without a filter.
    pub fn only_results(self, only: &Option<OnlyOpt>) -> (r: Self)
        ensures
            r.0 == self.0,
            r.1 == self.1,
            r.3 == self.3,
            r.2@ == kept_results(*only, self.2@),
    {
        let TestSuiteResult(name, num, results, errors) = self;
        let ghost all = results@;
        let mut rest = results;
        let mut keep: Vec<TestResult> = Vec::new();
        while rest.len() > 0
            invariant
                keep@ + kept_results(*only, rest@) == kept_results(*only, all),
            decreases rest.len(),
        {
            let ghost before = rest@;
            let item = rest.remove(0);
            proof {
                assert(before.drop_first() =~= rest@);
            }
            let take = match (only, &item.state) {
                (Some(OnlyOpt::Fail), TestState::Mismatch(..)) => true,
                (Some(OnlyOpt::Pass), TestState::Correct) => true,
                (Some(OnlyOpt::Missing), TestState::Missing(..)) => true,
                (Some(_), _) => false,
                (None, _) => true,
            };
            if take {
                keep.push(item);
                proof {
                    assert(keep@ + kept_results(*only, rest@) =~= keep@.drop_last() + kept_results(*only, before));
                }
            }
        }
        proof {
            assert(keep@ + kept_results(*only, rest@) =~= keep@);
        }
        TestSuiteResult(name, num, keep, errors)
    }

    /// The text to write to each result's expect file, result by result.
    pub fn texts_to_save(&self) -> (r: Vec<Option<String>>)
        ensures
            r@.len() == self.2@.len(),
            forall|i: int| 0 <= i < r@.len() ==> opt_view(#[trigger] r@[i]) == save_text(self.2@[i].state@),
    {
        let mut r: Vec<Option<String>> = Vec::new();
        let mut i: usize = 0;
        while i < self.2.len()
            invariant
                i <= self.2.len(),
                r@.len() == i,
                forall|j: int| 0 <= j < i ==> opt_view(#[trigger] r@[j]) == save_text(self.2@[j].state@),
            decreases self.2.len() - i,
        {
            r.push(self.2[i].text_to_save());
            i = i + 1;
        }
        r
    }

    /// Records how the write of each result's expect file went, result by
    /// result (the entry of a result with nothing to save is not looked at):
    /// results whose write succeeded are marked saved, and each failed write
    /// adds an error.
    pub fn save_all(&mut self, written: Vec<Result<(), RuntError>>)
        requires
            written@.len() == old(self).2@.len(),
        ensures
            final(self).0 == old(self).0,
            final(self).1 == old(self).1,
            messages(final(self).3@) == messages(old(self).3@) + save_failures(old(self).2@, written@),
            final(self).2@.len() == old(self).2@.len(),
            forall|i: int|
                0 <= i < old(self).2@.len() ==> {
                    let (a, b) = (#[trigger] final(self).2@[i], old(self).2@[i]);
                    &&& a.state == b.state
                    &&& a.path == b.path
                    &&& a.expect_path == b.expect_path
                    &&& a.saved == (b.saved || (save_text(b.state@) is Some && written@[i] is Ok))
                },
    {
        let ghost orig = self.2@;
        let ghost all = written@;
        let ghost errs0 = self.3@;
        let mut rest = written;
        let mut i: usize = 0;
        while i < self.2.len()
            invariant
                i <= self.2.len(),
                self.2@.len() == orig.len(),
                all.len() == orig.len(),
                rest@ == all.subrange(i as int, all.len() as int),
                self.0 == old(self).0,
                self.1 == old(self).1,
                orig == old(self).2@,
                messages(self.3@) == messages(errs0) + save_failures(orig.subrange(0, i as int), all.subrange(0, i as int)),
                errs0 == old(self).3@,
                forall|j: int|
                    0 <= j < orig.len() ==> {
                        let (a, b) = (#[trigger] self.2@[j], orig[j]);
                        &&& a.state == b.state
                        &&& a.path == b.path
                        &&& a.expect_path == b.expect_path
                        &&& a.saved == if j < i {
                            b.saved || (save_text(b.state@) is Some && all[j] is Ok)
                        } else {
                            b.saved
                        }
                    },
            decreases self.2.len() - i,
        {
            let outcome = rest.remove(0);
            proof {
                assert(outcome == all[i as int]);
                assert(rest@ =~= all.subrange(i + 1, all.len() as int));
            }
            let mut item = self.2.remove(i);
            let ghost before = messages(self.3@);
            let has_text = !matches!(item.state, TestState::Correct);
            if has_text {
                match item.save_results(outcome) {
                    Ok(()) => {},
                    Err(e) => {
                        self.3.push(e);
                    },
                }
            }
            self.2.insert(i, item);
            proof {
                assert(orig.subrange(0, i + 1).drop_last() =~= orig.subrange(0, i as int));
                assert(all.subrange(0, i + 1).drop_last() =~= all.subrange(0, i as int));
                assert(messages(self.3@) =~= before + match (save_text(orig[i as int].state@), all[i as int]) {
                    (Some(_), Err(e)) => seq![save_error(orig[i as int].expect_path@, e.0@)],
                    _ => Seq::empty(),
                });
            }
            i = i + 1;
        }
        proof {
            assert(orig.subrange(0, orig.len() as int) =~= orig);
            assert(all.subrange(0, all.len() as int) =~= all);
        }
    }
}

/// The number of results whose outcome satisfies `p`.
pub open spec fn count_results(results: Seq<TestResult>, p: spec_fn(StateView) -> bool) -> nat
    decreases results.len(),
{
    if results.len() == 0 {
        0
    } else {
        count_results(results.drop_last(), p) + if p(results.last().state@) { 1nat } else { 0nat }
    }
}

proof fn lemma_count_results_bounded(results: Seq<TestResult>, p: spec_fn(StateView) -> bool)
    ensures
        count_results(results, p) <= results.len(),
    decreases results.len(),
{
    if results.len() > 0 {
        lemma_count_results_bounded(results.drop_last(), p);
    }
}

/// The report lines of results, without diffs, each indented and on a line
/// of its own.
pub open spec fn result_lines(results: Seq<TestResult>) -> Seq<(Style, Seq<char>)>
    decreases results.len(),
{
    if results.len() == 0 {
        Seq::empty()
    } else {
        result_lines(results.drop_last()) + (seq![(Style::Plain, "  "@)] + result_head(
            results.last().state@,
            results.last().path@,
            results.last().saved,
        )).push((Style::Plain, "\n"@))
    }
}

impl TestSuiteResult {
    /// The report of this suite, and the numbers of passing, failing and
    /// missing results. The report names the suite and its number of tests,
    /// then reports each result, then lists the errors. Without diffs the
    /// report is exact; with them, each result's report carries its diff.
    pub fn test_suite_results(&self, opts: &Opts) -> (r: (Vec<Span>, i32, i32, i32))
        requires
            self.2@.len() <= i32::MAX,
        ensures
            r.1 == count_results(self.2@, |s: StateView| s is Correct),
            r.2 == count_results(self.2@, |s: StateView| s is Mismatch),
            r.3 == count_results(self.2@, |s: StateView| s is Missing),
            !opts.diff ==> span_views(r.0@) == (if self.2@.len() > 0 {
                seq![
                    (Style::Bold, self.0@),
                    (Style::Plain, " ("@),
                    (Style::Plain, int_digits(self.1 as int)),
                    (Style::Plain, " tests)\n"@),
                ] + result_lines(self.2@)
            } else {
                Seq::empty()
            }) + (if self.3@.len() > 0 {
                seq![(Style::Plain, "  "@), (Style::Red, "runt errors"@), (Style::Plain, "\n"@)]
                    + errors_body(self.3@)
            } else {
                Seq::empty()
            }),
            exists|pieces: Seq<Seq<(Style, Seq<char>)>>|
                {
                    &&& pieces.len() == self.2@.len()
                    &&& forall|i: int|
                        0 <= i < pieces.len() ==> is_result_report(
                            #[trigger] pieces[i],
                            self.2@[i].state@,
                            self.2@[i].path@,
                            self.2@[i].saved,
                            opts.diff,
                        )
                    &&& span_views(r.0@) == suite_heading(self.0@, self.1 as int, self.2@.len() > 0)
                        + wrapped(pieces) + errors_section(self.3@)
                },
    {
        let mut buf: Vec<Span> = Vec::new();
        let mut pass: i32 = 0;
        let mut fail: i32 = 0;
        let mut miss: i32 = 0;
        let ghost mut pieces: Seq<Seq<(Style, Seq<char>)>> = Seq::empty();
        let ghost rs = self.2@;
        if self.2.len() > 0 {
            buf.push(Span::new(Style::Bold, self.0.as_str()));
            buf.push(Span::new(Style::Plain, " ("));
            buf.push(Span { style: Style::Plain, text: i32_text(self.1) });
            buf.push(Span::new(Style::Plain, " tests)\n"));
        }
        let ghost header = span_views(buf@);
        let mut i: usize = 0;
        while i < self.2.len()
            invariant
                i <= self.2.len(),
                rs == self.2@,
                rs.len() <= i32::MAX,
                pass == count_results(rs.subrange(0, i as int), |s: StateView| s is Correct),
                fail == count_results(rs.subrange(0, i as int), |s: StateView| s is Mismatch),
                miss == count_results(rs.subrange(0, i as int), |s: StateView| s is Missing),
                !opts.diff ==> span_views(buf@) == header + result_lines(rs.subrange(0, i as int)),
                pieces.len() == i,
                forall|j: int|
                    0 <= j < i ==> is_result_report(#[trigger] pieces[j], rs[j].state@, rs[j].path@, rs[j].saved, opts.diff),
                span_views(buf@) == header + wrapped(pieces),
            decreases self.2.len() - i,
        {
            let info = &self.2[i];
            let ghost before = span_views(buf@);
            let ghost pre = rs.subrange(0, i as int);
            proof {
                assert(rs.subrange(0, i + 1).drop_last() =~= pre);
                lemma_count_results_bounded(pre, |s: StateView| s is Correct);
                lemma_count_results_bounded(pre, |s: StateView| s is Mismatch);
                lemma_count_results_bounded(pre, |s: StateView| s is Missing);
            }
            buf.push(Span::new(Style::Plain, "  "));
            let mut line = info.report_spans(opts.diff);
            let ghost lv = span_views(line@);
            buf.append(&mut line);
            buf.push(Span::new(Style::Plain, "\n"));
            proof {
                assert(span_views(buf@) =~= before + (seq![(Style::Plain, "  "@)] + lv).push(
                    (Style::Plain, "\n"@),
                ));
                if !opts.diff {
                    assert(lv =~= result_head(info.state@, info.path@, info.saved));
                }
                let old_pieces = pieces;
                pieces = pieces.push(lv);
                assert(pieces.drop_last() =~= old_pieces);
            }
            match info.state {
                TestState::Correct => {
                    pass = pass + 1;
                },
                TestState::Missing(..) => {
                    miss = miss + 1;
                },
                TestState::Mismatch(..) => {
                    fail = fail + 1;
                },
            }
            i = i + 1;
        }
        proof {
            assert(rs.subrange(0, rs.len() as int) =~= rs);
        }
        let ghost body = span_views(buf@);
        if self.3.len() > 0 {
            buf.push(Span::new(Style::Plain, "  "));
            buf.push(Span::new(Style::Red, "runt errors"));
            buf.push(Span::new(Style::Plain, "\n"));
        }
        let ghost with_title = span_views(buf@);
        let mut j: usize = 0;
        while j < self.3.len()
            invariant
                j <= self.3.len(),
                span_views(buf@) == with_title + errors_body(self.3@.subrange(0, j as int)),
            decreases self.3.len() - j,
        {
            let ghost before = span_views(buf@);
            buf.push(Span::new(Style::Plain, "    "));
            buf.push(Span { style: Style::Red, text: self.3[j].message() });
            buf.push(Span::new(Style::Plain, "\n"));
            proof {
                assert(self.3@.subrange(0, j + 1).drop_last() =~= self.3@.subrange(0, j as int));
                assert(span_views(buf@) =~= before + seq![
                    (Style::Plain, "    "@),
                    (Style::Red, self.3@[j as int].0@),
                    (Style::Plain, "\n"@),
                ]);
            }
            j = j + 1;
        }
        proof {
            assert(self.3@.subrange(0, self.3@.len() as int) =~= self.3@);
            if !opts.diff {
                if self.2@.len() == 0 {
                    assert(header =~= Seq::<(Style, Seq<char>)>::empty());
                }
                if self.3@.len() == 0 {
                    assert(with_title =~= body);
                }
                assert(span_views(buf@) =~= (header + result_lines(rs)) + (with_title.subrange(
                    body.len() as int,
                    with_title.len() as int,
                ) + errors_body(self.3@)));
            }
            if self.2@.len() == 0 {
                assert(header =~= Seq::<(Style, Seq<char>)>::empty());
            }
            assert(header == suite_heading(self.0@, self.1 as int, self.2@.len() > 0));
            if self.3@.len() == 0 {
                assert(with_title =~= body);
            }
            assert(span_views(buf@) =~= suite_heading(self.0@, self.1 as int, self.2@.len() > 0) + wrapped(
                pieces,
            ) + errors_section(self.3@));
        }
        (buf, pass, fail, miss)
    }
}

} // verus!

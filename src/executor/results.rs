//! Results of tests and of test suites.
use vstd::prelude::*;
use crate::cli::{OnlyOpt, Opts};
use crate::errors::RuntError;
use super::suite;
use crate::diff::{gen_diff_spans, info_views, numbered, line_changes, render_chunks, chunks_of, PrintInfo};
use crate::style::{Span, Style, span_views, plain_of, plain_text};
use crate::text::{int_digits, i32_text};

verus! {

/// The outcome of a test.
#[derive(Debug, PartialEq)]
pub enum State {
    /// A skip marker exists and skipping was not overridden.
    Skip,
    /// The test timed out.
    Timeout,
    /// The output matched the expect file.
    Correct,
    /// The expect file is missing. Holds the generated expectation.
    Missing(String),
    /// The output differs from the expect file. Holds the generated
    /// expectation and the contents of the expect file.
    Mismatch(String, String),
}

/// The outcome of a test, with its texts as character sequences.
pub enum StateView {
    Skip,
    Timeout,
    Correct,
    Missing(Seq<char>),
    Mismatch(Seq<char>, Seq<char>),
}

impl View for State {
    type V = StateView;

    open spec fn view(&self) -> StateView {
        match self {
            State::Skip => StateView::Skip,
            State::Timeout => StateView::Timeout,
            State::Correct => StateView::Correct,
            State::Missing(e) => StateView::Missing(e@),
            State::Mismatch(e, c) => StateView::Mismatch(e@, c@),
        }
    }
}

/// The outcome of comparing a generated expectation with the recorded one,
/// if there is one.
pub open spec fn classified(expect: Seq<char>, recorded: Option<Seq<char>>) -> StateView {
    match recorded {
        None => StateView::Missing(expect),
        Some(r) => if r == expect {
            StateView::Correct
        } else {
            StateView::Mismatch(expect, r)
        },
    }
}

/// The text that saving a result writes to its expect file, if any.
pub open spec fn save_text(s: StateView) -> Option<Seq<char>> {
    match s {
        StateView::Missing(e) => Some(e),
        StateView::Mismatch(e, _) => Some(e),
        _ => None,
    }
}

/// Whether an outcome is of the kind that a post-filter selects.
pub open spec fn selected(only: OnlyOpt, s: StateView) -> bool {
    match only {
        OnlyOpt::Fail => s is Mismatch,
        OnlyOpt::Pass => s is Correct,
        OnlyOpt::Missing => s is Missing,
    }
}

/// Compares a generated expectation with the recorded one, if any.
pub fn classify(expect: String, recorded: Option<String>) -> (r: State)
    ensures
        r@ == classified(
            expect@,
            match recorded {
                Some(c) => Some(c@),
                None => None,
            },
        ),
{
    match recorded {
        None => State::Missing(expect),
        Some(contents) => if contents == expect {
            State::Correct
        } else {
            State::Mismatch(expect, contents)
        },
    }
}

/// The result of one test.
#[derive(Debug)]
pub struct Test {
    /// Path of the test.
    pub path: String,
    /// Location of the expect file.
    pub expect_path: String,
    /// Outcome of the test.
    pub state: State,
    /// Whether the expect file was written for this result.
    pub saved: bool,
    /// The suite that owns this test.
    pub test_suite: suite::Id,
}

impl Test {
    /// The text to write to this result's expect file: the generated
    /// expectation of a missing or mismatched result; nothing for others.
    pub fn text_to_save(&self) -> (r: Option<String>)
        ensures
            crate::executor::test::opt_view(r) == save_text(self.state@),
    {
        match &self.state {
            State::Correct | State::Timeout | State::Skip => None,
            State::Missing(expect) | State::Mismatch(expect, _) => Some(expect.clone()),
        }
    }

    /// Records how writing the expect file went. The result is marked saved
    /// only when it had a text to save and the write succeeded; a failed
    /// write gives an error that names the expect file.
    pub fn save_results(&mut self, written: Result<(), RuntError>) -> (r: Result<(), RuntError>)
        ensures
            r is Ok <==> written is Ok,
            written is Err ==> r->Err_0.0@ == old(self).expect_path@ + ": "@ + written->Err_0.0@ + "."@,
            final(self).saved == (old(self).saved || (written is Ok && save_text(old(self).state@) is Some)),
            final(self).state == old(self).state,
            final(self).path == old(self).path,
            final(self).expect_path == old(self).expect_path,
            final(self).test_suite == old(self).test_suite,
    {
        match written {
            Ok(()) => {
                if !matches!(self.state, State::Correct | State::Timeout | State::Skip) {
                    self.saved = true;
                }
                Ok(())
            },
            Err(e) => {
                let msg = self.expect_path.clone().concat(": ").concat(e.0.as_str()).concat(".");
                Err(RuntError(msg))
            },
        }
    }

    /// Whether this result is of the kind that `only` selects.
    pub fn with_only_opt(&self, only: &OnlyOpt) -> (r: bool)
        ensures
            r == selected(*only, self.state@),
    {
        match (only, &self.state) {
            (OnlyOpt::Fail, State::Mismatch(..)) => true,
            (OnlyOpt::Pass, State::Correct) => true,
            (OnlyOpt::Missing, State::Missing(..)) => true,
            _ => false,
        }
    }

    /// Whether this result is to be saved: saving was asked for, and the
    /// result is of the kind that the post-filter selects, if one is set.
    pub fn should_save(&self, opts: &Opts) -> (r: bool)
        ensures
            r == (opts.save && match opts.post_filter {
                Some(only) => selected(only, self.state@),
                None => true,
            }),
    {
        if !opts.save {
            return false;
        }
        if let Some(only) = &opts.post_filter {
            return self.with_only_opt(only);
        }
        true
    }

    /// Whether this result is to be printed: always in verbose mode; else
    /// when the post-filter, if one is set, selects it; else unless it passed.
    pub fn should_print(&self, opts: &Opts) -> (r: bool)
        ensures
            r == (opts.verbose || match opts.post_filter {
                Some(only) => selected(only, self.state@),
                None => !(self.state@ is Correct),
            }),
    {
        if opts.verbose {
            return true;
        }
        if let Some(only) = &opts.post_filter {
            return self.with_only_opt(only);
        }
        !matches!(self.state, State::Correct)
    }
}

/// Whether `d` is the rendered diff from `org` to `new`, where both texts
/// number fewer than `usize::MAX` lines.
pub open spec fn is_diff_of(d: Seq<(Style, Seq<char>)>, org: Seq<char>, new: Seq<char>) -> bool {
    numbered(line_changes(org, new)).1 < usize::MAX && numbered(line_changes(org, new)).2 < usize::MAX
        ==> exists|infos: Seq<PrintInfo>|
        info_views(infos) == numbered(line_changes(org, new)).0 && d == render_chunks(
            chunks_of(infos),
        )
}

/// The mark, the plain style and the bold style of a report line.
pub open spec fn report_look(s: StateView) -> (Seq<char>, Style, Style) {
    match s {
        StateView::Missing(_) => ("? "@, Style::Yellow, Style::BoldYellow),
        StateView::Timeout => ("\u{2717} "@, Style::Red, Style::BoldRed),
        StateView::Mismatch(..) => ("\u{2717} "@, Style::Red, Style::BoldRed),
        StateView::Correct => ("\u{2713} "@, Style::Green, Style::BoldGreen),
        StateView::Skip => ("- "@, Style::Dimmed, Style::BoldDimmed),
    }
}

/// The note at the end of a report line: `(saved)` for a saved missing or
/// mismatched result, `(timeout)` and `(skipped)` for those outcomes.
pub open spec fn report_note(s: StateView, saved: bool) -> Seq<(Style, Seq<char>)> {
    match s {
        StateView::Missing(_) | StateView::Mismatch(..) => if saved {
            seq![(Style::Dimmed, " (saved)"@)]
        } else {
            Seq::empty()
        },
        StateView::Timeout => seq![(Style::Dimmed, " (timeout)"@)],
        StateView::Skip => seq![(Style::Dimmed, " (skipped)"@)],
        StateView::Correct => Seq::empty(),
    }
}

/// The report line of a result: its mark, `<suite>:` when a suite name is
/// given, its path, and its note.
pub open spec fn report_head(s: StateView, path: Seq<char>, suite: Option<Seq<char>>, saved: bool) -> Seq<
    (Style, Seq<char>),
> {
    let (mark, color, bold) = report_look(s);
    seq![(color, mark)] + match suite {
        Some(n) => seq![(bold, n), (color, ":"@)],
        None => Seq::empty(),
    } + seq![(color, path)] + report_note(s, saved)
}

/// The old and the new text of the diff shown for a result: from nothing to
/// the expectation where the expect file is missing, from the file to the
/// expectation where they differ.
pub open spec fn diff_sides(s: StateView) -> Option<(Seq<char>, Seq<char>)> {
    match s {
        StateView::Missing(e) => Some((Seq::empty(), e)),
        StateView::Mismatch(e, c) => Some((c, e)),
        _ => None,
    }
}

/// Whether `r` is the report of a result: its report line, then, if diffs
/// are shown and the result has one, a newline and the diff.
pub open spec fn is_report(
    r: Seq<(Style, Seq<char>)>,
    s: StateView,
    path: Seq<char>,
    suite: Option<Seq<char>>,
    saved: bool,
    show_diff: bool,
) -> bool {
    let head = report_head(s, path, suite, saved);
    &&& head.len() <= r.len()
    &&& r.subrange(0, head.len() as int) == head
    &&& match diff_sides(s) {
        Some((o, n)) if show_diff => {
            &&& r.len() > head.len()
            &&& r[head.len() as int] == (Style::Plain, "\n"@)
            &&& is_diff_of(r.subrange(head.len() as int + 1, r.len() as int), o, n)
        },
        _ => r.len() == head.len(),
    }
}

impl Test {
    /// The report of this result as spans: a mark, the suite name if given,
    /// the path and a note, then the diff when `show_diff` is set and the
    /// result is missing or mismatched.
    pub fn report_spans(&self, suite: Option<&String>, show_diff: bool) -> (r: Vec<Span>)
        ensures
            is_report(
                span_views(r@),
                self.state@,
                self.path@,
                match suite {
                    Some(n) => Some(n@),
                    None => None,
                },
                self.saved,
                show_diff,
            ),
    {
        let ghost sv = self.state@;
        let (mark, color, bold) = match &self.state {
            State::Missing(_) => ("? ", Style::Yellow, Style::BoldYellow),
            State::Timeout => ("\u{2717} ", Style::Red, Style::BoldRed),
            State::Mismatch(..) => ("\u{2717} ", Style::Red, Style::BoldRed),
            State::Correct => ("\u{2713} ", Style::Green, Style::BoldGreen),
            State::Skip => ("- ", Style::Dimmed, Style::BoldDimmed),
        };
        let mut r: Vec<Span> = Vec::new();
        r.push(Span::new(color, mark));
        if let Some(name) = suite {
            r.push(Span::new(bold, name.as_str()));
            r.push(Span::new(color, ":"));
        }
        r.push(Span::new(color, self.path.as_str()));
        match &self.state {
            State::Missing(_) | State::Mismatch(..) => {
                if self.saved {
                    r.push(Span::new(Style::Dimmed, " (saved)"));
                }
            },
            State::Timeout => {
                r.push(Span::new(Style::Dimmed, " (timeout)"));
            },
            State::Skip => {
                r.push(Span::new(Style::Dimmed, " (skipped)"));
            },
            State::Correct => {},
        }
        let ghost head = report_head(
            sv,
            self.path@,
            match suite {
                Some(n) => Some(n@),
                None => None,
            },
            self.saved,
        );
        assert(span_views(r@) =~= head);
        if show_diff {
            let diff = match &self.state {
                State::Missing(expect) => Some(gen_diff_spans("", expect.as_str())),
                State::Mismatch(expect, contents) => Some(gen_diff_spans(contents.as_str(), expect.as_str())),
                _ => None,
            };
            if let Some(mut d) = diff {
                let ghost dv = span_views(d@);
                r.push(Span::new(Style::Plain, "\n"));
                r.append(&mut d);
                proof {
                    assert(span_views(r@).subrange(0, head.len() as int) =~= head);
                    assert(span_views(r@).subrange(head.len() as int + 1, span_views(r@).len() as int) =~= dv);
                    reveal_strlit("");
                    assert(""@ =~= Seq::<char>::empty());
                }
            }
        }
        proof {
            assert(span_views(r@).subrange(0, head.len() as int) =~= head);
        }
        r
    }

    /// The report of this result, without styles.
    pub fn report_str(&self, suite: Option<&String>, show_diff: bool) -> (r: String)
        ensures
            exists|spans: Seq<(Style, Seq<char>)>|
                is_report(
                    spans,
                    self.state@,
                    self.path@,
                    match suite {
                        Some(n) => Some(n@),
                        None => None,
                    },
                    self.saved,
                    show_diff,
                ) && r@ == plain_of(spans),
    {
        let spans = self.report_spans(suite, show_diff);
        plain_text(&spans)
    }
}

/// Whether a result is kept under an optional post-filter.
pub open spec fn kept(only: Option<OnlyOpt>, s: StateView) -> bool {
    match only {
        Some(o) => selected(o, s),
        None => true,
    }
}

/// The results that an optional post-filter keeps, in order.
pub open spec fn retained(only: Option<OnlyOpt>, results: Seq<Test>) -> Seq<Test>
    decreases results.len(),
{
    if results.len() == 0 {
        Seq::empty()
    } else if kept(only, results[0].state@) {
        seq![results[0]] + retained(only, results.drop_first())
    } else {
        retained(only, results.drop_first())
    }
}

/// The number of results whose outcome satisfies `p`.
pub open spec fn count_where(results: Seq<Test>, p: spec_fn(StateView) -> bool) -> nat
    decreases results.len(),
{
    if results.len() == 0 {
        0
    } else {
        count_where(results.drop_last(), p) + if p(results.last().state@) { 1nat } else { 0nat }
    }
}

proof fn lemma_count_bounded(results: Seq<Test>, p: spec_fn(StateView) -> bool)
    ensures
        count_where(results, p) <= results.len(),
    decreases results.len(),
{
    if results.len() > 0 {
        lemma_count_bounded(results.drop_last(), p);
    }
}

/// The report lines of results, without diffs, each indented and on a line
/// of its own.
pub open spec fn results_body(results: Seq<Test>) -> Seq<(Style, Seq<char>)>
    decreases results.len(),
{
    if results.len() == 0 {
        Seq::empty()
    } else {
        results_body(results.drop_last()) + (seq![(Style::Plain, "  "@)] + report_head(
            results.last().state@,
            results.last().path@,
            None,
            results.last().saved,
        )).push((Style::Plain, "\n"@))
    }
}

/// The lines of errors, each indented and on a line of its own.
pub open spec fn errors_body(errors: Seq<RuntError>) -> Seq<(Style, Seq<char>)>
    decreases errors.len(),
{
    if errors.len() == 0 {
        Seq::empty()
    } else {
        errors_body(errors.drop_last()) + seq![
            (Style::Plain, "    "@),
            (Style::Red, errors.last().0@),
            (Style::Plain, "\n"@),
        ]
    }
}

/// Reports of results, each indented and on a line of its own.
pub open spec fn wrapped(pieces: Seq<Seq<(Style, Seq<char>)>>) -> Seq<(Style, Seq<char>)>
    decreases pieces.len(),
{
    if pieces.len() == 0 {
        Seq::empty()
    } else {
        wrapped(pieces.drop_last()) + (seq![(Style::Plain, "  "@)] + pieces.last()).push(
            (Style::Plain, "\n"@),
        )
    }
}

/// The heading of a suite's report, shown when it has results:
/// `<name> (<n> tests)`.
pub open spec fn suite_heading(name: Seq<char>, num_tests: int, has_results: bool) -> Seq<(Style, Seq<char>)> {
    if has_results {
        seq![
            (Style::Bold, name),
            (Style::Plain, " ("@),
            (Style::Plain, int_digits(num_tests)),
            (Style::Plain, " tests)\n"@),
        ]
    } else {
        Seq::empty()
    }
}

/// The errors section of a suite's report, shown when it has errors.
pub open spec fn errors_section(errors: Seq<RuntError>) -> Seq<(Style, Seq<char>)> {
    if errors.len() > 0 {
        seq![(Style::Plain, "  "@), (Style::Red, "runt errors"@), (Style::Plain, "\n"@)] + errors_body(errors)
    } else {
        Seq::empty()
    }
}

/// Result of running a test suite.
pub struct Suite {
    /// Name of the test suite.
    pub name: String,
    /// Number of matching paths.
    pub num_tests: i32,
    /// Results of the tests that ran.
    pub results: Vec<Test>,
    /// Errors while running this suite.
    pub errors: Vec<RuntError>,
}

impl Suite {
    /// Gathers the results of a suite.
    pub fn new(name: String, num_tests: i32, results: Vec<Test>, errors: Vec<RuntError>) -> (r: Self)
        ensures
            r.name == name,
            r.num_tests == num_tests,
            r.results == results,
            r.errors == errors,
    {
        Self { name, num_tests, results, errors }
    }

    /// Keeps the results that the post-filter selects, in order; all of
    /// them without a filter.
    pub fn only_results(self, only: &Option<OnlyOpt>) -> (r: Self)
        ensures
            r.name == self.name,
            r.num_tests == self.num_tests,
            r.errors == self.errors,
            r.results@ == retained(*only, self.results@),
    {
        let Suite { name, num_tests, results, errors } = self;
        let ghost all = results@;
        let mut rest = results;
        let mut keep: Vec<Test> = Vec::new();
        while rest.len() > 0
            invariant
                keep@ + retained(*only, rest@) == retained(*only, all),
            decreases rest.len(),
        {
            let ghost before = rest@;
            let item = rest.remove(0);
            proof {
                assert(before.drop_first() =~= rest@);
            }
            let take = match only {
                Some(o) => item.with_only_opt(o),
                None => true,
            };
            if take {
                keep.push(item);
                proof {
                    assert(keep@ + retained(*only, rest@) =~= keep@.drop_last() + retained(*only, before));
                }
            }
        }
        proof {
            assert(keep@ + retained(*only, rest@) =~= keep@);
        }
        Suite { name, num_tests, results: keep, errors }
    }

    /// The report of this suite, and the numbers of passing, failing,
    /// missing and timed-out results. The report names the suite and its
    /// number of tests, then reports each result, then lists the errors.
    /// Without diffs the report is exact; with them, each result's report
    /// carries its diff.
    pub fn test_suite_results(&self, opts: &crate::cli::Opts) -> (r: (Vec<Span>, i32, i32, i32, i32))
        requires
            self.results@.len() <= i32::MAX,
        ensures
            r.1 == count_where(self.results@, |s: StateView| s is Correct),
            r.2 == count_where(self.results@, |s: StateView| s is Mismatch),
            r.3 == count_where(self.results@, |s: StateView| s is Missing),
            r.4 == count_where(self.results@, |s: StateView| s is Timeout),
            !opts.diff ==> span_views(r.0@) == (if self.results@.len() > 0 {
                seq![
                    (Style::Bold, self.name@),
                    (Style::Plain, " ("@),
                    (Style::Plain, int_digits(self.num_tests as int)),
                    (Style::Plain, " tests)\n"@),
                ] + results_body(self.results@)
            } else {
                Seq::empty()
            }) + (if self.errors@.len() > 0 {
                seq![(Style::Plain, "  "@), (Style::Red, "runt errors"@), (Style::Plain, "\n"@)]
                    + errors_body(self.errors@)
            } else {
                Seq::empty()
            }),
            exists|pieces: Seq<Seq<(Style, Seq<char>)>>|
                {
                    &&& pieces.len() == self.results@.len()
                    &&& forall|i: int|
                        0 <= i < pieces.len() ==> is_report(
                            #[trigger] pieces[i],
                            self.results@[i].state@,
                            self.results@[i].path@,
                            None,
                            self.results@[i].saved,
                            opts.diff,
                        )
                    &&& span_views(r.0@) == suite_heading(
                        self.name@,
                        self.num_tests as int,
                        self.results@.len() > 0,
                    ) + wrapped(pieces) + errors_section(self.errors@)
                },
    {
        let mut buf: Vec<Span> = Vec::new();
        let mut pass: i32 = 0;
        let mut fail: i32 = 0;
        let mut miss: i32 = 0;
        let mut timeout: i32 = 0;
        let ghost mut pieces: Seq<Seq<(Style, Seq<char>)>> = Seq::empty();
        let ghost rs = self.results@;
        if self.results.len() > 0 {
            buf.push(Span::new(Style::Bold, self.name.as_str()));
            buf.push(Span::new(Style::Plain, " ("));
            buf.push(Span { style: Style::Plain, text: i32_text(self.num_tests) });
            buf.push(Span::new(Style::Plain, " tests)\n"));
        }
        let ghost header = span_views(buf@);
        let mut i: usize = 0;
        while i < self.results.len()
            invariant
                i <= self.results.len(),
                rs == self.results@,
                rs.len() <= i32::MAX,
                pass == count_where(rs.subrange(0, i as int), |s: StateView| s is Correct),
                fail == count_where(rs.subrange(0, i as int), |s: StateView| s is Mismatch),
                miss == count_where(rs.subrange(0, i as int), |s: StateView| s is Missing),
                timeout == count_where(rs.subrange(0, i as int), |s: StateView| s is Timeout),
                !opts.diff ==> span_views(buf@) == header + results_body(rs.subrange(0, i as int)),
                pieces.len() == i,
                forall|j: int|
                    0 <= j < i ==> is_report(
                        #[trigger] pieces[j],
                        rs[j].state@,
                        rs[j].path@,
                        None,
                        rs[j].saved,
                        opts.diff,
                    ),
                span_views(buf@) == header + wrapped(pieces),
            decreases self.results.len() - i,
        {
            let info = &self.results[i];
            let ghost before = span_views(buf@);
            let ghost pre = rs.subrange(0, i as int);
            let ghost next = rs.subrange(0, i + 1);
            proof {
                assert(next.drop_last() =~= pre);
                lemma_count_bounded(pre, |s: StateView| s is Correct);
                lemma_count_bounded(pre, |s: StateView| s is Mismatch);
                lemma_count_bounded(pre, |s: StateView| s is Missing);
                lemma_count_bounded(pre, |s: StateView| s is Timeout);
            }
            buf.push(Span::new(Style::Plain, "  "));
            let mut line = info.report_spans(None, opts.diff);
            let ghost lv = span_views(line@);
            buf.append(&mut line);
            buf.push(Span::new(Style::Plain, "\n"));
            proof {
                assert(span_views(buf@) =~= before + (seq![(Style::Plain, "  "@)] + lv).push(
                    (Style::Plain, "\n"@),
                ));
                if !opts.diff {
                    assert(lv =~= report_head(info.state@, info.path@, None, info.saved));
                }
                let old_pieces = pieces;
                pieces = pieces.push(lv);
                assert(pieces.drop_last() =~= old_pieces);
            }
            match info.state {
                State::Correct => {
                    pass = pass + 1;
                },
                State::Missing(..) => {
                    miss = miss + 1;
                },
                State::Mismatch(..) => {
                    fail = fail + 1;
                },
                State::Timeout => {
                    timeout = timeout + 1;
                },
                State::Skip => {},
            }
            i = i + 1;
        }
        proof {
            assert(rs.subrange(0, rs.len() as int) =~= rs);
        }
        let ghost body = span_views(buf@);
        if self.errors.len() > 0 {
            buf.push(Span::new(Style::Plain, "  "));
            buf.push(Span::new(Style::Red, "runt errors"));
            buf.push(Span::new(Style::Plain, "\n"));
        }
        let ghost with_title = span_views(buf@);
        let mut j: usize = 0;
        while j < self.errors.len()
            invariant
                j <= self.errors.len(),
                span_views(buf@) == with_title + errors_body(self.errors@.subrange(0, j as int)),
            decreases self.errors.len() - j,
        {
            let ghost before = span_views(buf@);
            buf.push(Span::new(Style::Plain, "    "));
            buf.push(Span { style: Style::Red, text: self.errors[j].message() });
            buf.push(Span::new(Style::Plain, "\n"));
            proof {
                assert(self.errors@.subrange(0, j + 1).drop_last() =~= self.errors@.subrange(0, j as int));
                assert(span_views(buf@) =~= before + seq![
                    (Style::Plain, "    "@),
                    (Style::Red, self.errors@[j as int].0@),
                    (Style::Plain, "\n"@),
                ]);
            }
            j = j + 1;
        }
        proof {
            assert(self.errors@.subrange(0, self.errors@.len() as int) =~= self.errors@);
            if !opts.diff {
                if self.results@.len() == 0 {
                    assert(header =~= Seq::<(Style, Seq<char>)>::empty());
                }
                if self.errors@.len() == 0 {
                    assert(with_title =~= body);
                }
                assert(span_views(buf@) =~= (header + results_body(rs)) + (with_title.subrange(
                    body.len() as int,
                    with_title.len() as int,
                ) + errors_body(self.errors@)));
            }
            if self.results@.len() == 0 {
                assert(header =~= Seq::<(Style, Seq<char>)>::empty());
            }
            assert(header == suite_heading(self.name@, self.num_tests as int, self.results@.len() > 0));
            if self.errors@.len() == 0 {
                assert(with_title =~= body);
            }
            assert(span_views(buf@) =~= suite_heading(
                self.name@,
                self.num_tests as int,
                self.results@.len() > 0,
            ) + wrapped(pieces) + errors_section(self.errors@));
        }
        (buf, pass, fail, miss, timeout)
    }
}

/// A result passes exactly when the recorded expectation equals the
/// generated one; such a result has nothing to save, so its expect file is
/// left as it was, and running the test again with the same output passes
/// again.
pub proof fn lemma_correct_is_stable(expect: Seq<char>, recorded: Option<Seq<char>>)
    requires
        classified(expect, recorded) is Correct,
    ensures
        recorded == Some(expect),
        save_text(classified(expect, recorded)) is None,
        classified(expect, recorded) is Correct,
{
}

/// Saving a missing or mismatched result writes its generated expectation,
/// and running the test again with the same output then passes.
pub proof fn lemma_save_then_rerun_passes(expect: Seq<char>, recorded: Option<Seq<char>>)
    requires
        classified(expect, recorded) is Missing || classified(expect, recorded) is Mismatch,
    ensures
        save_text(classified(expect, recorded)) == Some(expect),
        classified(expect, save_text(classified(expect, recorded))) is Correct,
{
}

/// The `fail` post-filter keeps exactly the mismatched results: never a
/// timed-out one, though both count as failing.
pub proof fn lemma_fail_filter_is_mismatch(results: Seq<Test>)
    ensures
        forall|i: int|
            0 <= i < retained(Some(OnlyOpt::Fail), results).len() ==> (#[trigger] retained(
                Some(OnlyOpt::Fail),
                results,
            )[i]).state@ is Mismatch,
        forall|i: int|
            0 <= i < results.len() && (#[trigger] results[i]).state@ is Mismatch ==> retained(
                Some(OnlyOpt::Fail),
                results,
            ).contains(results[i]),
    decreases results.len(),
{
    if results.len() > 0 {
        let rest = results.drop_first();
        lemma_fail_filter_is_mismatch(rest);
        let r = retained(Some(OnlyOpt::Fail), results);
        let rr = retained(Some(OnlyOpt::Fail), rest);
        assert forall|i: int| 0 <= i < results.len() && (#[trigger] results[i]).state@ is Mismatch implies r.contains(results[i]) by {
            if i == 0 {
                assert(r[0] == results[0]);
            } else {
                assert(results[i] == rest[i - 1]);
                let k = choose|k: int| 0 <= k < rr.len() && rr[k] == rest[i - 1];
                if results[0].state@ is Mismatch {
                    assert(r[k + 1] == rr[k]);
                } else {
                    assert(r[k] == rr[k]);
                }
            }
        }
    }
}

} // verus!

//! The state of a run: the tests to execute, the suites they came from, and
//! the counters that the results update one at a time.
use vstd::prelude::*;
use super::results::{State, StateView, errors_body, errors_section};
use crate::errors::RuntError;
use super::suite::{Config, Suite};
use super::Test;
use crate::cli::OnlyOpt;
use crate::style::{Span, Style, span_views, plain_of, plain_text};
use crate::text::{nat_digits, u64_text};

verus! {

/// The tests of a run, with the largest number of them in flight at once.
pub struct Executor {
    /// Tests to be executed.
    pub tests: Vec<Test>,
    /// The largest number of tests running at the same time.
    pub max_futures: usize,
}

/// The counters of a run.
#[derive(Clone, Copy, Debug, PartialEq, Eq, Structural)]
pub struct Status {
    pub miss: u64,
    pub pass: u64,
    pub remain: u64,
    pub skip: u64,
    pub fail: u64,
    pub timeout: u64,
}

/// The counters after `states` were counted, starting from `total`
/// remaining tests.
pub open spec fn run_status(total: u64, states: Seq<StateView>) -> Status
    decreases states.len(),
{
    if states.len() == 0 {
        Status { miss: 0, pass: 0, remain: total, skip: 0, fail: 0, timeout: 0 }
    } else {
        run_status(total, states.drop_last()).updated(states.last())
    }
}

impl Status {
    /// The sum of all six counters.
    pub open spec fn tally(self) -> int {
        self.miss + self.pass + self.remain + self.skip + self.fail + self.timeout
    }

    /// The number of results counted so far.
    pub open spec fn done(self) -> int {
        self.miss + self.pass + self.skip + self.fail + self.timeout
    }

    /// The counters after one more result: its own counter goes up by one,
    /// and `remain` down by one.
    pub open spec fn updated(self, s: StateView) -> Status {
        let st = Status { remain: (self.remain - 1) as u64, ..self };
        match s {
            StateView::Skip => Status { skip: (self.skip + 1) as u64, ..st },
            StateView::Correct => Status { pass: (self.pass + 1) as u64, ..st },
            StateView::Mismatch(..) => Status { fail: (self.fail + 1) as u64, ..st },
            StateView::Timeout => Status { timeout: (self.timeout + 1) as u64, ..st },
            StateView::Missing(..) => Status { miss: (self.miss + 1) as u64, ..st },
        }
    }

    /// The exit status of a run under the post-filter: the failing and
    /// timed-out tests for `fail`, the missing ones for `miss`, none for
    /// `pass`, and all three kinds without a filter.
    pub open spec fn outcome_of(self, only: Option<OnlyOpt>) -> int {
        match only {
            Some(OnlyOpt::Fail) => self.fail + self.timeout,
            Some(OnlyOpt::Missing) => self.miss as int,
            Some(OnlyOpt::Pass) => 0,
            None => self.fail + self.timeout + self.miss,
        }
    }

    /// The counters of a run of `total` tests, before any result.
    pub fn new(total: u64) -> (r: Status)
        ensures
            r == (Status { miss: 0, pass: 0, remain: total, skip: 0, fail: 0, timeout: 0 }),
    {
        Status { remain: total, miss: 0, pass: 0, skip: 0, fail: 0, timeout: 0 }
    }

    /// The counter that a result of outcome `s` moves up.
    pub open spec fn counter_for(self, s: StateView) -> u64 {
        match s {
            StateView::Skip => self.skip,
            StateView::Correct => self.pass,
            StateView::Mismatch(..) => self.fail,
            StateView::Timeout => self.timeout,
            StateView::Missing(..) => self.miss,
        }
    }

    /// Counts one more result.
    pub fn update(&mut self, state: &State)
        requires
            old(self).remain > 0,
            old(self).counter_for(state@) < u64::MAX,
        ensures
            *final(self) == old(self).updated(state@),
    {
        match state {
            State::Skip => {
                self.skip = self.skip + 1;
            },
            State::Correct => {
                self.pass = self.pass + 1;
            },
            State::Mismatch(..) => {
                self.fail = self.fail + 1;
            },
            State::Timeout => {
                self.timeout = self.timeout + 1;
            },
            State::Missing(..) => {
                self.miss = self.miss + 1;
            },
        }
        self.remain = self.remain - 1;
    }

    /// The exit status of the run under the post-filter `only`, capped at
    /// `u64::MAX`.
    pub fn outcome(&self, only: Option<OnlyOpt>) -> (r: u64)
        ensures
            r == if self.outcome_of(only) <= u64::MAX { self.outcome_of(only) } else { u64::MAX as int },
    {
        match only {
            Some(OnlyOpt::Fail) => self.fail.saturating_add(self.timeout),
            Some(OnlyOpt::Missing) => self.miss,
            Some(OnlyOpt::Pass) => 0,
            None => self.fail.saturating_add(self.timeout).saturating_add(self.miss),
        }
    }

    /// Counts the result of one more test and says whether to print it.
    /// Fails, changing nothing, where no test remains or the result's
    /// counter is full.
    pub fn record(&mut self, res: &super::results::Test, opts: &crate::cli::Opts) -> (r: Result<bool, crate::errors::RuntError>)
        ensures
            r is Ok <==> (old(self).remain > 0 && old(self).counter_for(res.state@) < u64::MAX),
            r is Ok ==> *final(self) == old(self).updated(res.state@) && r->Ok_0 == (opts.verbose
                || match opts.post_filter {
                Some(only) => super::results::selected(only, res.state@),
                None => !(res.state@ is Correct),
            }),
            r is Err ==> *final(self) == *old(self),
    {
        let full = match &res.state {
            State::Skip => self.skip == u64::MAX,
            State::Correct => self.pass == u64::MAX,
            State::Mismatch(..) => self.fail == u64::MAX,
            State::Timeout => self.timeout == u64::MAX,
            State::Missing(..) => self.miss == u64::MAX,
        };
        if self.remain == 0 || full {
            return Err(crate::errors::RuntError("more results than tests".to_owned()));
        }
        self.update(&res.state);
        Ok(res.should_print(opts))
    }

    /// The spans of the summary line.
    pub open spec fn summary_view(self) -> Seq<(Style, Seq<char>)> {
        seq![
            (Style::Plain, " "@),
            (Style::BoldGreen, nat_digits(self.pass as nat)),
            (Style::Plain, " "@),
            (Style::BoldGreen, "passing"@),
            (Style::Plain, " / "@),
            (Style::BoldRed, nat_digits(if self.fail + self.timeout <= u64::MAX { (self.fail + self.timeout) as nat } else { u64::MAX as nat })),
            (Style::Plain, " "@),
            (Style::BoldRed, "failing"@),
            (Style::Plain, " / "@),
            (Style::BoldYellow, nat_digits(self.miss as nat)),
            (Style::Plain, " "@),
            (Style::BoldYellow, "missing"@),
            (Style::Plain, " / "@),
            (Style::BoldDimmedYellow, nat_digits(self.skip as nat)),
            (Style::Plain, " "@),
            (Style::BoldDimmedYellow, "skipped"@),
            (Style::Plain, " / "@),
            (Style::BoldDimmed, nat_digits(self.remain as nat)),
            (Style::Plain, " "@),
            (Style::BoldDimmed, "remaining"@),
        ]
    }

    /// The summary line as spans: passing, failing (mismatched and timed
    /// out, capped at `u64::MAX`), missing, skipped and remaining tests.
    pub fn summary_spans(&self) -> (r: Vec<Span>)
        ensures
            span_views(r@) == self.summary_view(),
    {
        let mut r: Vec<Span> = Vec::new();
        r.push(Span::new(Style::Plain, " "));
        r.push(Span { style: Style::BoldGreen, text: u64_text(self.pass) });
        r.push(Span::new(Style::Plain, " "));
        r.push(Span::new(Style::BoldGreen, "passing"));
        r.push(Span::new(Style::Plain, " / "));
        r.push(Span { style: Style::BoldRed, text: u64_text(self.fail.saturating_add(self.timeout)) });
        r.push(Span::new(Style::Plain, " "));
        r.push(Span::new(Style::BoldRed, "failing"));
        r.push(Span::new(Style::Plain, " / "));
        r.push(Span { style: Style::BoldYellow, text: u64_text(self.miss) });
        r.push(Span::new(Style::Plain, " "));
        r.push(Span::new(Style::BoldYellow, "missing"));
        r.push(Span::new(Style::Plain, " / "));
        r.push(Span { style: Style::BoldDimmedYellow, text: u64_text(self.skip) });
        r.push(Span::new(Style::Plain, " "));
        r.push(Span::new(Style::BoldDimmedYellow, "skipped"));
        r.push(Span::new(Style::Plain, " / "));
        r.push(Span { style: Style::BoldDimmed, text: u64_text(self.remain) });
        r.push(Span::new(Style::Plain, " "));
        r.push(Span::new(Style::BoldDimmed, "remaining"));
        assert(span_views(r@) =~= self.summary_view());
        r
    }

    /// The summary line, without styles.
    pub fn summary(&self) -> (r: String)
        ensures
            r@ == plain_of(self.summary_view()),
    {
        plain_text(&self.summary_spans())
    }
}

/// Each result moves one test from `remain` to exactly one of the other
/// counters, so the six counters always add up to the number of tests, and
/// `remain` reaches zero once every test has a result.
pub proof fn lemma_counters_add_up(total: u64, states: Seq<StateView>)
    requires
        states.len() <= total,
    ensures
        run_status(total, states).tally() == total,
        run_status(total, states).remain == total - states.len(),
        run_status(total, states).done() == states.len(),
    decreases states.len(),
{
    if states.len() > 0 {
        lemma_counters_add_up(total, states.drop_last());
    }
}

/// The tests of one suite, tagged with its id.
pub open spec fn suite_tests(s: Suite, id: int) -> Seq<Test> {
    s.paths@.map_values(
        |p: String|
            Test {
                path: p,
                cmd: s.config.cmd,
                expect_dir: s.config.expect_dir,
                test_suite: id as u64,
                timeout: s.config.timeout,
            },
    )
}

/// The tests of all suites, suite after suite, each tagged with the index of
/// its suite.
pub open spec fn flatten_suites(suites: Seq<Suite>) -> Seq<Test>
    decreases suites.len(),
{
    if suites.len() == 0 {
        Seq::empty()
    } else {
        flatten_suites(suites.drop_last()) + suite_tests(suites.last(), suites.len() - 1)
    }
}

fn clone_dir(d: &Option<String>) -> (r: Option<String>)
    ensures
        r == *d,
{
    match d {
        Some(s) => Some(s.clone()),
        None => None,
    }
}

/// The suites of a run and the tests to execute.
pub struct Context {
    /// Configurations of the suites, indexed by suite id.
    pub configs: Vec<Config>,
    /// The tests to be executed.
    pub executor: Executor,
}

impl Context {
    /// Sets up a run of the suites, at most `max_futures` tests at a time.
    /// The tests of all suites are flattened in order, each tagged with the
    /// index of its suite, which is also its configuration's index.
    pub fn from(suites: Vec<Suite>, max_futures: usize) -> (r: Context)
        ensures
            r.executor.tests@ == flatten_suites(suites@),
            r.executor.max_futures == max_futures,
            r.configs@.len() == suites@.len(),
            forall|i: int| 0 <= i < suites@.len() ==> #[trigger] r.configs@[i] == suites@[i].config,
    {
        let mut configs: Vec<Config> = Vec::new();
        let mut tests: Vec<Test> = Vec::new();
        let mut idx: usize = 0;
        while idx < suites.len()
            invariant
                idx <= suites.len(),
                tests@ == flatten_suites(suites@.subrange(0, idx as int)),
                configs@.len() == idx,
                forall|i: int| 0 <= i < idx ==> #[trigger] configs@[i] == suites@[i].config,
            decreases suites.len() - idx,
        {
            let suite = &suites[idx];
            let ghost start = tests@;
            let mut j: usize = 0;
            while j < suite.paths.len()
                invariant
                    j <= suite.paths.len(),
                    idx < suites.len(),
                    suite == &suites@[idx as int],
                    tests@ == start + suite_tests(*suite, idx as int).subrange(0, j as int),
                decreases suite.paths.len() - j,
            {
                tests.push(
                    Test {
                        path: suite.paths[j].clone(),
                        cmd: suite.config.cmd.clone(),
                        expect_dir: clone_dir(&suite.config.expect_dir),
                        test_suite: idx as u64,
                        timeout: suite.config.timeout,
                    },
                );
                proof {
                    assert(suite_tests(*suite, idx as int).subrange(0, j + 1) =~= suite_tests(
                        *suite,
                        idx as int,
                    ).subrange(0, j as int).push(tests@.last()));
                }
                j = j + 1;
            }
            configs.push(
                Config {
                    name: suite.config.name.clone(),
                    cmd: suite.config.cmd.clone(),
                    expect_dir: clone_dir(&suite.config.expect_dir),
                    timeout: suite.config.timeout,
                },
            );
            proof {
                assert(suite_tests(*suite, idx as int).subrange(0, suite.paths.len() as int)
                    =~= suite_tests(*suite, idx as int));
                assert(suites@.subrange(0, idx + 1).drop_last() =~= suites@.subrange(0, idx as int));
            }
            idx = idx + 1;
        }
        proof {
            assert(suites@.subrange(0, suites.len() as int) =~= suites@);
        }
        Context { configs, executor: Executor { tests, max_futures } }
    }
}

/// The errors of the suite with id `id`, in order.
pub open spec fn errors_of(errors: Seq<(u64, RuntError)>, id: int) -> Seq<RuntError>
    decreases errors.len(),
{
    if errors.len() == 0 {
        Seq::empty()
    } else {
        errors_of(errors.drop_last(), id) + if errors.last().0 == id {
            seq![errors.last().1]
        } else {
            Seq::empty()
        }
    }
}

/// The errors block of one suite: its name and its errors section, shown
/// when it has errors.
pub open spec fn suite_error_block(name: Seq<char>, errs: Seq<RuntError>) -> Seq<(Style, Seq<char>)> {
    if errs.len() > 0 {
        seq![(Style::Bold, name), (Style::Plain, "\n"@)] + errors_section(errs)
    } else {
        Seq::empty()
    }
}

/// The errors blocks of the first `n` suites, in suite order.
pub open spec fn error_report(configs: Seq<Config>, errors: Seq<(u64, RuntError)>, n: int) -> Seq<(Style, Seq<char>)>
    decreases n,
{
    if n <= 0 {
        Seq::empty()
    } else {
        error_report(configs, errors, n - 1) + suite_error_block(configs[n - 1].name@, errors_of(errors, n - 1))
    }
}

fn copy_error(e: &RuntError) -> (r: RuntError)
    ensures
        r == *e,
{
    RuntError(e.0.clone())
}

impl Context {
    /// The errors of a run, each tagged with the id of its suite, reported
    /// suite by suite: the suite's name, then its errors under a
    /// `runt errors` heading. Suites without errors are left out.
    pub fn error_report(&self, errors: &Vec<(u64, RuntError)>) -> (r: Vec<Span>)
        ensures
            span_views(r@) == error_report(self.configs@, errors@, self.configs@.len() as int),
    {
        let mut r: Vec<Span> = Vec::new();
        let mut i: usize = 0;
        while i < self.configs.len()
            invariant
                i <= self.configs.len(),
                span_views(r@) == error_report(self.configs@, errors@, i as int),
            decreases self.configs.len() - i,
        {
            let mut errs: Vec<RuntError> = Vec::new();
            let mut k: usize = 0;
            while k < errors.len()
                invariant
                    k <= errors.len(),
                    errs@ == errors_of(errors@.subrange(0, k as int), i as int),
                decreases errors.len() - k,
            {
                if errors[k].0 == i as u64 {
                    errs.push(copy_error(&errors[k].1));
                }
                proof {
                    assert(errors@.subrange(0, k + 1).drop_last() =~= errors@.subrange(0, k as int));
                }
                k = k + 1;
            }
            proof {
                assert(errors@.subrange(0, errors@.len() as int) =~= errors@);
            }
            let ghost before = span_views(r@);
            if errs.len() > 0 {
                r.push(Span::new(Style::Bold, self.configs[i].name.as_str()));
                r.push(Span::new(Style::Plain, "\n"));
                r.push(Span::new(Style::Plain, "  "));
                r.push(Span::new(Style::Red, "runt errors"));
                r.push(Span::new(Style::Plain, "\n"));
                let ghost titled = span_views(r@);
                let mut j: usize = 0;
                while j < errs.len()
                    invariant
                        j <= errs.len(),
                        span_views(r@) == titled + errors_body(errs@.subrange(0, j as int)),
                    decreases errs.len() - j,
                {
                    let ghost b2 = span_views(r@);
                    r.push(Span::new(Style::Plain, "    "));
                    r.push(Span { style: Style::Red, text: errs[j].message() });
                    r.push(Span::new(Style::Plain, "\n"));
                    proof {
                        assert(errs@.subrange(0, j + 1).drop_last() =~= errs@.subrange(0, j as int));
                        assert(span_views(r@) =~= b2 + seq![
                            (Style::Plain, "    "@),
                            (Style::Red, errs@[j as int].0@),
                            (Style::Plain, "\n"@),
                        ]);
                    }
                    j = j + 1;
                }
                proof {
                    assert(errs@.subrange(0, errs@.len() as int) =~= errs@);
                    assert(span_views(r@) =~= before + suite_error_block(self.configs@[i as int].name@, errs@));
                }
            } else {
                proof {
                    assert(span_views(r@) =~= before + suite_error_block(self.configs@[i as int].name@, errs@));
                }
            }
            i = i + 1;
        }
        r
    }
}

} // verus!

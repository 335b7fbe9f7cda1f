use crate::options::TestOptions;
use crate::target::{TestTarget, TestTargetView};
use vstd::prelude::*;

verus! {

/// Settings of one test run. They are fixed before the first target starts.
#[derive(Clone, Debug, PartialEq, Eq)]
pub struct RunConfiguration {
    /// Only tests whose names contain this text are run by each executable.
    pub test_name_filter: Option<String>,
    /// Handed to each executable as they stand, behind the filter.
    pub pass_through_args: Vec<String>,
    /// Stop at the first target that fails.
    pub fail_fast: bool,
    /// Run nothing at all.
    pub no_run: bool,
    /// How often each target is run; a count of zero counts as one.
    pub run_count: u32,
    /// For how many seconds after a target's first start its runs only warm up.
    pub warmup_seconds: u64,
    /// Ask each executable for terse progress output.
    pub quiet: bool,
}

/// Mathematical value of a `RunConfiguration`.
pub struct RunConfigurationView {
    pub test_name_filter: Option<Seq<char>>,
    pub pass_through_args: Seq<Seq<char>>,
    pub fail_fast: bool,
    pub no_run: bool,
    pub run_count: u32,
    pub warmup_seconds: u64,
    pub quiet: bool,
}

impl View for RunConfiguration {
    type V = RunConfigurationView;

    open spec fn view(&self) -> RunConfigurationView {
        RunConfigurationView {
            test_name_filter: match self.test_name_filter {
                Some(f) => Some(f@),
                None => None,
            },
            pass_through_args: self.pass_through_args.deep_view(),
            fail_fast: self.fail_fast,
            no_run: self.no_run,
            run_count: self.run_count,
            warmup_seconds: self.warmup_seconds,
            quiet: self.quiet,
        }
    }
}

/// How often a target is run at most.
pub open spec fn planned_runs(c: RunConfigurationView) -> nat {
    if c.run_count == 0 {
        1
    } else {
        c.run_count as nat
    }
}

/// Whether the run with this index (counted from zero) only warms up: the
/// target is run more than once, a warmup time is set, the run is not the
/// last of the planned ones, and it starts less than the warmup time after
/// the target's first run started. Times are in microseconds.
pub open spec fn is_warmup_run(
    c: RunConfigurationView,
    index: nat,
    first_start: u64,
    started_at: u64,
) -> bool {
    &&& c.run_count > 1
    &&& c.warmup_seconds > 0
    &&& index + 1 < c.run_count
    &&& started_at - first_start < c.warmup_seconds * 1_000_000
}

/// Whether the duration of the run with this index enters the timing
/// summary: durations are kept only where a target is run more than once,
/// and not of its warmup runs.
pub open spec fn is_timed_run(
    c: RunConfigurationView,
    index: nat,
    first_start: u64,
    started_at: u64,
) -> bool {
    c.run_count > 1 && !is_warmup_run(c, index, first_start, started_at)
}

/// The arguments for one launch of `t`: the test name filter first, if one
/// is set, then the pass-through arguments in their order, then `--quiet` if
/// quiet output is wanted and the target's harness understands it.
pub open spec fn arguments_of(c: RunConfigurationView, t: TestTargetView) -> Seq<Seq<char>> {
    (match c.test_name_filter {
        Some(f) => seq![f],
        None => Seq::empty(),
    }) + c.pass_through_args + (if t.harness && c.quiet {
        seq!["--quiet"@]
    } else {
        Seq::empty()
    })
}

impl RunConfiguration {
    /// One run of each target, no warmup, stopping at the first failure.
    pub fn minimal() -> (c: RunConfiguration)
        ensures
            c@ == (RunConfigurationView {
                test_name_filter: None,
                pass_through_args: Seq::empty(),
                fail_fast: true,
                no_run: false,
                run_count: 1,
                warmup_seconds: 0,
                quiet: false,
            }),
    {
        let c = RunConfiguration {
            test_name_filter: None,
            pass_through_args: Vec::new(),
            fail_fast: true,
            no_run: false,
            run_count: 1,
            warmup_seconds: 0,
            quiet: false,
        };
        assert(c.pass_through_args.deep_view() =~= Seq::empty());
        c
    }

    /// Thirty-two runs of each target behind three seconds of warmup, for
    /// timing a test suite; stopping at the first failure.
    pub fn timing() -> (c: RunConfiguration)
        ensures
            c@ == (RunConfigurationView {
                test_name_filter: None,
                pass_through_args: Seq::empty(),
                fail_fast: true,
                no_run: false,
                run_count: 32,
                warmup_seconds: 3,
                quiet: false,
            }),
    {
        let c = RunConfiguration {
            test_name_filter: None,
            pass_through_args: Vec::new(),
            fail_fast: true,
            no_run: false,
            run_count: 32,
            warmup_seconds: 3,
            quiet: false,
        };
        assert(c.pass_through_args.deep_view() =~= Seq::empty());
        c
    }

    /// The settings of a run that was planned as `options`: it stops at the
    /// first failure unless told not to, and executes nothing where that was
    /// asked for.
    pub fn from_options(
        options: &TestOptions,
        test_name_filter: Option<String>,
        pass_through_args: Vec<String>,
        run_count: u32,
        warmup_seconds: u64,
        quiet: bool,
    ) -> (c: RunConfiguration)
        ensures
            c@ == (RunConfigurationView {
                test_name_filter: match test_name_filter {
                    Some(f) => Some(f@),
                    None => None,
                },
                pass_through_args: pass_through_args.deep_view(),
                fail_fast: !options.no_fail_fast,
                no_run: options.no_run,
                run_count,
                warmup_seconds,
                quiet,
            }),
    {
        RunConfiguration {
            test_name_filter,
            pass_through_args,
            fail_fast: !options.no_fail_fast,
            no_run: options.no_run,
            run_count,
            warmup_seconds,
            quiet,
        }
    }

    /// See `planned_runs`.
    pub fn runs(&self) -> (n: u32)
        ensures
            n == planned_runs(self@),
            n >= 1,
    {
        if self.run_count == 0 {
            1
        } else {
            self.run_count
        }
    }

    /// See `is_warmup_run`. `index` counts the target's runs from zero.
    pub fn is_warmup(&self, index: u32, first_start: u64, started_at: u64) -> (r: bool)
        ensures
            r == is_warmup_run(self@, index as nat, first_start, started_at),
    {
        if self.run_count <= 1 || self.warmup_seconds == 0 || index >= self.run_count - 1 {
            return false;
        }
        if started_at < first_start {
            return true;
        }
        let elapsed = (started_at - first_start) as u128;
        let window = (self.warmup_seconds as u128) * 1_000_000;
        elapsed < window
    }

    /// See `is_timed_run`.
    pub fn is_timed(&self, index: u32, first_start: u64, started_at: u64) -> (r: bool)
        ensures
            r == is_timed_run(self@, index as nat, first_start, started_at),
    {
        self.run_count > 1 && !self.is_warmup(index, first_start, started_at)
    }

    /// See `arguments_of`.
    pub fn arguments(&self, target: &TestTarget) -> (args: Vec<String>)
        ensures
            args.deep_view() == arguments_of(self@, target@),
    {
        let mut args: Vec<String> = Vec::new();
        match &self.test_name_filter {
            Some(f) => {
                args.push(f.clone());
            },
            None => {},
        }
        let ghost head = args.deep_view();
        assert(head =~= match self@.test_name_filter {
            Some(f) => seq![f],
            None => Seq::empty(),
        });
        let n = self.pass_through_args.len();
        let mut i: usize = 0;
        while i < n
            invariant
                i <= n,
                n == self.pass_through_args.len(),
                args.deep_view() == head + self@.pass_through_args.take(i as int),
            decreases n - i,
        {
            let ghost before = args.deep_view();
            args.push(self.pass_through_args[i].clone());
            assert(args.deep_view() =~= before.push(self@.pass_through_args[i as int]));
            assert(self@.pass_through_args.take(i + 1) =~= self@.pass_through_args.take(
                i as int,
            ).push(self@.pass_through_args[i as int]));
            i += 1;
        }
        assert(self@.pass_through_args.take(n as int) =~= self@.pass_through_args);
        let ghost body = args.deep_view();
        if target.harness && self.quiet {
            args.push(String::from_str("--quiet"));
            assert(args.deep_view() =~= body + seq!["--quiet"@]);
        } else {
            assert(args.deep_view() =~= body + Seq::<Seq<char>>::empty());
        }
        args
    }
}

} // verus!

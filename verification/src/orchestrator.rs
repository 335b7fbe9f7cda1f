use crate::aggregate::{
    empty_result, AggregatedResult, AggregatedResultView, TargetTiming, TargetTimingView,
};
use crate::config::{arguments_of, RunConfiguration, RunConfigurationView};
use crate::consistency::{consistent, lemma_initial_consistent, lemma_step_consistent};
use crate::controller::ControllerState;
use crate::executor::{after_report, ends_target, fresh_run, TargetRun, TargetRunView};
use crate::process::{failure_of, outcome_of, RunOutcome, RunReport, RunResult};
use crate::sorting::{sort_targets, sorted_targets};
use crate::target::{TargetId, TargetIdView, TestTarget, TestTargetView};
use crate::timing::{summarize, summary_of};
use vstd::prelude::*;

verus! {

/// How the runs of one target ended.
#[derive(Clone, Copy, Debug, PartialEq, Eq, Structural)]
pub enum Verdict {
    Passed,
    Failed,
}

/// Mathematical value of an `Orchestrator`: the state of one test run.
pub struct OrchestratorView {
    pub config: RunConfigurationView,
    /// The targets in execution order.
    pub targets: Seq<TestTargetView>,
    pub controller: ControllerState,
    /// One verdict for each target that has ended, in execution order.
    pub verdicts: Seq<Verdict>,
    /// Progress of the target that is being run.
    pub run: TargetRunView,
    pub result: AggregatedResultView,
}

/// The state before anything has run. `targets` are in execution order.
pub open spec fn initial(
    config: RunConfigurationView,
    targets: Seq<TestTargetView>,
) -> OrchestratorView {
    OrchestratorView {
        config,
        targets,
        controller: ControllerState::Running,
        verdicts: Seq::empty(),
        run: fresh_run(),
        result: empty_result(),
    }
}

impl OrchestratorView {
    /// Whether a process is still to be launched: the run is not one that
    /// executes nothing, it has not been stopped, and a target is left.
    pub open spec fn active(self) -> bool {
        &&& !self.config.no_run
        &&& self.controller == ControllerState::Running
        &&& self.verdicts.len() < self.targets.len()
    }

    /// The target that is run next, where the run is active.
    pub open spec fn current(self) -> TestTargetView {
        self.targets[self.verdicts.len() as int]
    }

    /// How many targets have been started: those that have ended, and the
    /// one that is being run, if it has had a run already.
    pub open spec fn attempted(self) -> nat {
        if self.active() && self.run.runs_done > 0 {
            self.verdicts.len() + 1
        } else {
            self.verdicts.len()
        }
    }
}

/// The state after the launch that was asked for has been reported. A report
/// that was not asked for changes nothing. A run that ends its target closes
/// the target: its verdict is noted, its failure and the summary of its
/// timed runs are added to the result, the controller is consulted, and the
/// next target, if any, begins afresh.
pub open spec fn step(s: OrchestratorView, report: RunReport) -> OrchestratorView {
    if !s.active() {
        s
    } else if !ends_target(s.config, s.run, report) {
        OrchestratorView { run: after_report(s.config, s.run, report), ..s }
    } else {
        let failed = !report.status.succeeded();
        let timed = after_report(s.config, s.run, report).timed;
        OrchestratorView {
            controller: s.controller.after(failed, s.config.fail_fast),
            verdicts: s.verdicts.push(
                if failed {
                    Verdict::Failed
                } else {
                    Verdict::Passed
                },
            ),
            run: fresh_run(),
            result: AggregatedResultView {
                failures: if failed {
                    s.result.failures.push(failure_of(s.current(), report.status))
                } else {
                    s.result.failures
                },
                timings: if timed.len() > 0 {
                    s.result.timings.push(
                        TargetTimingView {
                            position: s.verdicts.len(),
                            target: s.current().identity(),
                            summary: summary_of(timed),
                        },
                    )
                } else {
                    s.result.timings
                },
            },
            ..s
        }
    }
}

/// The state after a list of reports, taken in one after the other.
pub open spec fn drive(s: OrchestratorView, reports: Seq<RunReport>) -> OrchestratorView
    decreases reports.len(),
{
    if reports.len() == 0 {
        s
    } else {
        step(drive(s, reports.drop_last()), reports.last())
    }
}

/// One launch of a test executable that the orchestrator asks for.
#[derive(Clone, Debug, PartialEq, Eq)]
pub struct Invocation {
    /// Position of the target in execution order.
    pub position: usize,
    pub target: TargetId,
    pub executable_path: String,
    pub arguments: Vec<String>,
    /// How many runs of the target went before this one.
    pub run_index: u32,
}

/// Mathematical value of an `Invocation`.
pub struct InvocationView {
    pub position: nat,
    pub target: TargetIdView,
    pub executable_path: Seq<char>,
    pub arguments: Seq<Seq<char>>,
    pub run_index: nat,
}

impl View for Invocation {
    type V = InvocationView;

    open spec fn view(&self) -> InvocationView {
        InvocationView {
            position: self.position as nat,
            target: self.target@,
            executable_path: self.executable_path@,
            arguments: self.arguments.deep_view(),
            run_index: self.run_index as nat,
        }
    }
}

/// The launch that a state asks for, if it asks for one.
pub open spec fn invocation_of(s: OrchestratorView) -> Option<InvocationView> {
    if s.active() {
        Some(
            InvocationView {
                position: s.verdicts.len(),
                target: s.current().identity(),
                executable_path: s.current().executable_path,
                arguments: arguments_of(s.config, s.current()),
                run_index: s.run.runs_done,
            },
        )
    } else {
        None
    }
}

/// Runs a list of test targets one after the other without launching
/// anything itself: it says which executable to launch next and with which
/// arguments, takes in what came of the launch, and keeps the result.
pub struct Orchestrator {
    config: RunConfiguration,
    targets: Vec<TestTarget>,
    controller: ControllerState,
    verdicts: Vec<Verdict>,
    run: TargetRun,
    result: AggregatedResult,
}

impl View for Orchestrator {
    type V = OrchestratorView;

    closed spec fn view(&self) -> OrchestratorView {
        OrchestratorView {
            config: self.config@,
            targets: self.targets.deep_view(),
            controller: self.controller,
            verdicts: self.verdicts@,
            run: self.run@,
            result: self.result@,
        }
    }
}

impl Orchestrator {
    /// Begins a run: puts the targets into execution order and starts
    /// nothing yet.
    pub fn new(config: RunConfiguration, targets: Vec<TestTarget>) -> (o: Orchestrator)
        ensures
            o@ == initial(config@, sorted_targets(targets.deep_view())),
            consistent(o@),
    {
        proof {
            lemma_initial_consistent(config@, sorted_targets(targets.deep_view()));
        }
        Orchestrator {
            config,
            targets: sort_targets(targets),
            controller: ControllerState::Running,
            verdicts: Vec::new(),
            run: TargetRun::new(),
            result: AggregatedResult::new(),
        }
    }

    /// Whether the run is over: no launch is asked for any more.
    pub fn is_finished(&self) -> (r: bool)
        ensures
            r == !self@.active(),
    {
        self.config.no_run || self.controller.is_stopped() || self.verdicts.len()
            >= self.targets.len()
    }

    /// The targets in execution order.
    pub fn targets(&self) -> (t: &Vec<TestTarget>)
        ensures
            t.deep_view() == self@.targets,
    {
        &self.targets
    }

    /// The verdicts on the targets that have ended, in execution order.
    pub fn verdicts(&self) -> (v: &Vec<Verdict>)
        ensures
            v@ == self@.verdicts,
    {
        &self.verdicts
    }

    /// How many targets have been started so far.
    pub fn attempted(&self) -> (n: usize)
        ensures
            n == self@.attempted(),
    {
        let ended = self.verdicts.len();
        assert(self@.targets.len() == self.targets.len());
        if !self.is_finished() && self.run.runs_done > 0 {
            ended + 1
        } else {
            ended
        }
    }

    /// What has been gathered so far.
    pub fn result(&self) -> (r: &AggregatedResult)
        ensures
            r@ == self@.result,
    {
        &self.result
    }

    /// Ends the run and hands out what was gathered. The target that is
    /// being run, if any, has not entered it.
    pub fn into_result(self) -> (r: AggregatedResult)
        ensures
            r@ == self@.result,
    {
        self.result
    }

    /// The next launch to make, or `None` when the run is over.
    pub fn next_invocation(&self) -> (next: Option<Invocation>)
        ensures
            match next {
                Some(inv) => invocation_of(self@) == Some(inv@),
                None => invocation_of(self@) is None,
            },
    {
        if self.is_finished() {
            return None;
        }
        let position = self.verdicts.len();
        let target = &self.targets[position];
        assert(target@ == self@.current());
        Some(
            Invocation {
                position,
                target: target.identity(),
                executable_path: target.executable_path.clone(),
                arguments: self.config.arguments(target),
                run_index: self.run.runs_done,
            },
        )
    }

    /// Takes in what came of the launch that `next_invocation` asked for, and
    /// returns the outcome of that run. Where no launch was asked for,
    /// nothing changes and `None` is returned.
    pub fn record(&mut self, report: RunReport) -> (outcome: Option<RunOutcome>)
        ensures
            final(self)@ == step(old(self)@, report),
            consistent(old(self)@) ==> consistent(final(self)@),
            match outcome {
                Some(o) => old(self)@.active() && o@ == outcome_of(old(self)@.current(), report),
                None => !old(self)@.active(),
            },
    {
        proof {
            if consistent(self@) {
                lemma_step_consistent(self@, report);
            }
        }
        if self.is_finished() {
            return None;
        }
        let position = self.verdicts.len();
        assert(self.targets[position as int]@ == self@.current());
        let outcome = RunOutcome::from_report(&self.targets[position], &report);
        let finished = self.run.record(&self.config, &report);
        if finished {
            match summarize(&self.run.timed) {
                Some(summary) => {
                    let target = self.targets[position].identity();
                    self.result.record_timing(TargetTiming { position, target, summary });
                },
                None => {},
            }
            let failed = match &outcome.result {
                RunResult::Failed(failure) => {
                    self.result.record_failure(failure.duplicate());
                    true
                },
                RunResult::Passed => false,
            };
            self.verdicts.push(
                if failed {
                    Verdict::Failed
                } else {
                    Verdict::Passed
                },
            );
            self.controller = self.controller.observe(failed, self.config.fail_fast);
            self.run = TargetRun::new();
        }
        Some(outcome)
    }

    /// Takes in recorded reports one after the other, as `record` does, until
    /// they are used up or the run is over. Returns how many were taken in.
    pub fn replay(&mut self, reports: &Vec<RunReport>) -> (taken: usize)
        ensures
            taken <= reports.len(),
            final(self)@ == drive(old(self)@, reports@.take(taken as int)),
            final(self)@ == drive(old(self)@, reports@),
            taken < reports.len() ==> !final(self)@.active(),
            taken > 0 ==> drive(old(self)@, reports@.take(taken - 1)).active(),
            consistent(old(self)@) ==> consistent(final(self)@),
    {
        let n = reports.len();
        let mut taken: usize = 0;
        proof {
            assert(reports@.take(0) =~= Seq::<RunReport>::empty());
        }
        while taken < n && !self.is_finished()
            invariant
                taken <= n,
                n == reports.len(),
                self@ == drive(old(self)@, reports@.take(taken as int)),
                taken > 0 ==> drive(old(self)@, reports@.take(taken - 1)).active(),
                consistent(old(self)@) ==> consistent(self@),
            decreases n - taken,
        {
            proof {
                let next = reports@.take(taken + 1);
                assert(next.drop_last() =~= reports@.take(taken as int));
                assert(next.last() == reports@[taken as int]);
            }
            self.record(reports[taken]);
            taken += 1;
        }
        proof {
            if taken < n {
                let (taken_in, ignored) = (reports@.take(taken as int), reports@.skip(taken as int));
                lemma_drive_from_inactive(self@, ignored);
                lemma_drive_split(old(self)@, taken_in, ignored);
                assert(taken_in + ignored =~= reports@);
            } else {
                assert(reports@.take(n as int) =~= reports@);
            }
        }
        taken
    }
}

/// What a whole run comes to when its launches end as `reports` say, one
/// report for each launch in the order in which the launches are asked for.
/// Reports beyond the end of the run are ignored; where the reports run out
/// first, the result is what was gathered until then.
pub fn run_tests(
    config: RunConfiguration,
    targets: Vec<TestTarget>,
    reports: &Vec<RunReport>,
) -> (result: AggregatedResult)
    ensures
        result@ == drive(
            initial(config@, sorted_targets(targets.deep_view())),
            reports@,
        ).result,
        config@.no_run ==> result@ == empty_result(),
{
    let mut orchestrator = Orchestrator::new(config, targets);
    proof {
        if config@.no_run {
            lemma_drive_from_inactive(orchestrator@, reports@);
        }
    }
    orchestrator.replay(reports);
    orchestrator.into_result()
}

/// A run that is over takes in no more reports.
pub proof fn lemma_drive_from_inactive(s: OrchestratorView, reports: Seq<RunReport>)
    requires
        !s.active(),
    ensures
        drive(s, reports) == s,
    decreases reports.len(),
{
    if reports.len() > 0 {
        lemma_drive_from_inactive(s, reports.drop_last());
    }
}

/// Taking in two lists one after the other is taking in their concatenation.
pub proof fn lemma_drive_split(s: OrchestratorView, first: Seq<RunReport>, second: Seq<RunReport>)
    ensures
        drive(s, first + second) == drive(drive(s, first), second),
    decreases second.len(),
{
    if second.len() == 0 {
        assert(first + second =~= first);
    } else {
        lemma_drive_split(s, first, second.drop_last());
        assert((first + second).drop_last() =~= first + second.drop_last());
        assert((first + second).last() == second.last());
    }
}

} // verus!

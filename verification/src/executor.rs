use crate::config::{is_timed_run, planned_runs, RunConfiguration, RunConfigurationView};
use crate::process::RunReport;
use vstd::prelude::*;

verus! {

/// Progress of the runs of one target.
#[derive(Clone, Debug, PartialEq, Eq)]
pub struct TargetRun {
    /// Runs of the target that have passed so far and were not its last.
    pub runs_done: u32,
    /// When its first run started, in microseconds; meaningless before that.
    pub first_start: u64,
    /// Durations of its timed runs so far, in microseconds.
    pub timed: Vec<u64>,
}

/// Mathematical value of a `TargetRun`.
pub struct TargetRunView {
    pub runs_done: nat,
    pub first_start: u64,
    pub timed: Seq<u64>,
}

impl View for TargetRun {
    type V = TargetRunView;

    open spec fn view(&self) -> TargetRunView {
        TargetRunView {
            runs_done: self.runs_done as nat,
            first_start: self.first_start,
            timed: self.timed@,
        }
    }
}

/// A target before its first run.
pub open spec fn fresh_run() -> TargetRunView {
    TargetRunView { runs_done: 0, first_start: 0, timed: Seq::empty() }
}

/// Whether the reported run is the target's last: a target is not run again
/// once a run of it has failed, nor beyond the planned number of runs.
pub open spec fn ends_target(c: RunConfigurationView, run: TargetRunView, report: RunReport) -> bool {
    !report.status.succeeded() || run.runs_done + 1 >= planned_runs(c)
}

/// When the target's first run started, the reported run included.
pub open spec fn first_start_with(run: TargetRunView, report: RunReport) -> u64 {
    if run.runs_done == 0 {
        report.started_at
    } else {
        run.first_start
    }
}

/// The progress of a target after one more run of it was reported. The
/// duration of the run is kept whatever its status, unless the run is a
/// warmup run or the target is run once only.
pub open spec fn after_report(
    c: RunConfigurationView,
    run: TargetRunView,
    report: RunReport,
) -> TargetRunView {
    let first = first_start_with(run, report);
    TargetRunView {
        runs_done: if ends_target(c, run, report) {
            run.runs_done
        } else {
            run.runs_done + 1
        },
        first_start: first,
        timed: if is_timed_run(c, run.runs_done, first, report.started_at) {
            run.timed.push(report.duration)
        } else {
            run.timed
        },
    }
}

impl TargetRun {
    pub fn new() -> (run: TargetRun)
        ensures
            run@ == fresh_run(),
    {
        TargetRun { runs_done: 0, first_start: 0, timed: Vec::new() }
    }

    /// Takes in the report of one more run. Returns whether that run was the
    /// target's last.
    pub fn record(&mut self, config: &RunConfiguration, report: &RunReport) -> (finished: bool)
        ensures
            final(self)@ == after_report(config@, old(self)@, *report),
            finished == ends_target(config@, old(self)@, *report),
    {
        if self.runs_done == 0 {
            self.first_start = report.started_at;
        }
        if config.is_timed(self.runs_done, self.first_start, report.started_at) {
            self.timed.push(report.duration);
        }
        let finished = !report.status.is_success() || self.runs_done >= config.runs() - 1;
        if !finished {
            self.runs_done = self.runs_done + 1;
        }
        finished
    }
}

} // verus!

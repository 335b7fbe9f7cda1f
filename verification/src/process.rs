use crate::target::{TargetId, TargetIdView, TargetKind, TestTarget, TestTargetView};
use vstd::prelude::*;

verus! {

/// How one launch of a test executable ended.
#[derive(Clone, Copy, Debug, PartialEq, Eq, Structural)]
pub enum ProcessStatus {
    /// The process ran and left with this exit code.
    Exited(i32),
    /// The process was ended by this signal.
    Signaled(i32),
    /// The process could not be started.
    SpawnFailed,
}

impl ProcessStatus {
    /// Only a process that left with exit code zero has succeeded.
    pub open spec fn succeeded(self) -> bool {
        self == ProcessStatus::Exited(0)
    }

    pub fn is_success(&self) -> (r: bool)
        ensures
            r == self.succeeded(),
    {
        match self {
            ProcessStatus::Exited(code) => *code == 0,
            _ => false,
        }
    }
}

/// What the caller observed of one launch: when it began and how long it
/// took, both in microseconds, and how it ended.
#[derive(Clone, Copy, Debug, PartialEq, Eq, Structural)]
pub struct RunReport {
    pub started_at: u64,
    pub duration: u64,
    pub status: ProcessStatus,
}

/// A target whose process did not succeed.
#[derive(Clone, Debug, PartialEq, Eq)]
pub struct ProcessFailure {
    pub target: TargetId,
    pub status: ProcessStatus,
    /// Advice for the user on how to run the target again.
    pub hint: String,
}

/// Mathematical value of a `ProcessFailure`.
pub struct ProcessFailureView {
    pub target: TargetIdView,
    pub status: ProcessStatus,
    pub hint: Seq<char>,
}

impl View for ProcessFailure {
    type V = ProcessFailureView;

    open spec fn view(&self) -> ProcessFailureView {
        ProcessFailureView { target: self.target@, status: self.status, hint: self.hint@ }
    }
}

impl DeepView for ProcessFailure {
    type V = ProcessFailureView;

    open spec fn deep_view(&self) -> ProcessFailureView {
        self@
    }
}

/// The options that select a target on the command line.
pub open spec fn selector_text(id: TargetIdView) -> Seq<char> {
    match id.target_kind {
        TargetKind::Lib => "--lib"@,
        TargetKind::Bin => "--bin "@ + id.target_name,
        TargetKind::Test => "--test "@ + id.target_name,
        TargetKind::Example => "--example "@ + id.target_name,
        TargetKind::Bench => "--bench "@ + id.target_name,
        TargetKind::Doctest => "--doc"@,
    }
}

/// The hint for a failure: it tells a process that could not be started from
/// one that ran and failed, and names the target by package and selector.
pub open spec fn hint_text(status: ProcessStatus, id: TargetIdView) -> Seq<char> {
    (if status == ProcessStatus::SpawnFailed {
        "test could not be started, to rerun pass '-p "@
    } else {
        "test failed, to rerun pass '-p "@
    }) + id.package_name + " "@ + selector_text(id) + "'"@
}

/// The failure that `status` means for `target`.
pub open spec fn failure_of(target: TestTargetView, status: ProcessStatus) -> ProcessFailureView {
    ProcessFailureView {
        target: target.identity(),
        status,
        hint: hint_text(status, target.identity()),
    }
}

fn selector(target: &TestTarget) -> (text: String)
    ensures
        text@ == selector_text(target@.identity()),
{
    match target.target_kind {
        TargetKind::Lib => String::from_str("--lib"),
        TargetKind::Bin => String::from_str("--bin ").concat(target.target_name.as_str()),
        TargetKind::Test => String::from_str("--test ").concat(target.target_name.as_str()),
        TargetKind::Example => String::from_str("--example ").concat(
            target.target_name.as_str(),
        ),
        TargetKind::Bench => String::from_str("--bench ").concat(target.target_name.as_str()),
        TargetKind::Doctest => String::from_str("--doc"),
    }
}

impl ProcessFailure {
    /// Records that `target` ended with `status`.
    pub fn new(target: &TestTarget, status: ProcessStatus) -> (failure: ProcessFailure)
        ensures
            failure@ == failure_of(target@, status),
    {
        let mut hint = match status {
            ProcessStatus::SpawnFailed => String::from_str(
                "test could not be started, to rerun pass '-p ",
            ),
            _ => String::from_str("test failed, to rerun pass '-p "),
        };
        hint.append(target.package_name.as_str());
        hint.append(" ");
        let select = selector(target);
        hint.append(select.as_str());
        hint.append("'");
        ProcessFailure { target: target.identity(), status, hint }
    }

    /// A second value with the same contents.
    pub fn duplicate(&self) -> (copy: ProcessFailure)
        ensures
            copy@ == self@,
    {
        ProcessFailure {
            target: TargetId {
                package_name: self.target.package_name.clone(),
                target_kind: self.target.target_kind,
                target_name: self.target.target_name.clone(),
            },
            status: self.status,
            hint: self.hint.clone(),
        }
    }

    /// The exit code of the process, where it ran to an end of its own.
    pub fn exit_code(&self) -> (code: Option<i32>)
        ensures
            code == exit_code_of(self.status),
    {
        match self.status {
            ProcessStatus::Exited(c) => Some(c),
            _ => None,
        }
    }
}

/// The exit code that a status carries.
pub open spec fn exit_code_of(status: ProcessStatus) -> Option<i32> {
    match status {
        ProcessStatus::Exited(c) => Some(c),
        _ => None,
    }
}

/// Whether one run passed.
#[derive(Clone, Debug, PartialEq, Eq)]
pub enum RunResult {
    Passed,
    Failed(ProcessFailure),
}

/// The result of executing one target once.
#[derive(Clone, Debug, PartialEq, Eq)]
pub struct RunOutcome {
    /// Wall-clock time of the run, in microseconds.
    pub duration: u64,
    pub result: RunResult,
}

/// Mathematical value of a `RunOutcome`: its duration, and the failure if
/// there was one.
pub struct RunOutcomeView {
    pub duration: u64,
    pub failure: Option<ProcessFailureView>,
}

impl View for RunOutcome {
    type V = RunOutcomeView;

    open spec fn view(&self) -> RunOutcomeView {
        RunOutcomeView {
            duration: self.duration,
            failure: match self.result {
                RunResult::Passed => None,
                RunResult::Failed(f) => Some(f@),
            },
        }
    }
}

/// What a report means for the target it is about.
pub open spec fn outcome_of(target: TestTargetView, report: RunReport) -> RunOutcomeView {
    RunOutcomeView {
        duration: report.duration,
        failure: if report.status.succeeded() {
            None
        } else {
            Some(failure_of(target, report.status))
        },
    }
}

impl RunOutcome {
    /// Turns what was observed of one run of `target` into its outcome.
    pub fn from_report(target: &TestTarget, report: &RunReport) -> (outcome: RunOutcome)
        ensures
            outcome@ == outcome_of(target@, *report),
    {
        let result = if report.status.is_success() {
            RunResult::Passed
        } else {
            RunResult::Failed(ProcessFailure::new(target, report.status))
        };
        RunOutcome { duration: report.duration, result }
    }

    pub fn passed(&self) -> (r: bool)
        ensures
            r == (self@.failure is None),
    {
        match &self.result {
            RunResult::Passed => true,
            RunResult::Failed(_) => false,
        }
    }
}

} // verus!

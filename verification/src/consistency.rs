use crate::config::{planned_runs, RunConfigurationView};
use crate::controller::ControllerState;
use crate::executor::fresh_run;
use crate::orchestrator::{drive, initial, step, OrchestratorView, Verdict};
use crate::process::{failure_of, RunReport};
use crate::target::TestTargetView;
use vstd::prelude::*;

verus! {

/// The positions of the targets that failed, in execution order.
pub open spec fn failed_positions(verdicts: Seq<Verdict>) -> Seq<int>
    decreases verdicts.len(),
{
    if verdicts.len() == 0 {
        Seq::empty()
    } else if verdicts.last() == Verdict::Failed {
        failed_positions(verdicts.drop_last()).push(verdicts.len() - 1)
    } else {
        failed_positions(verdicts.drop_last())
    }
}

/// `failed_positions` lists exactly the positions with the verdict
/// `Failed`, each once and in rising order.
pub proof fn lemma_failed_positions(verdicts: Seq<Verdict>)
    ensures
        failed_positions(verdicts).len() <= verdicts.len(),
        forall|j: int|
            0 <= j < failed_positions(verdicts).len() ==> {
                &&& 0 <= #[trigger] failed_positions(verdicts)[j] < verdicts.len()
                &&& verdicts[failed_positions(verdicts)[j]] == Verdict::Failed
            },
        forall|j: int, k: int|
            0 <= j < k < failed_positions(verdicts).len() ==> #[trigger] failed_positions(
                verdicts,
            )[j] < #[trigger] failed_positions(verdicts)[k],
        forall|i: int|
            0 <= i < verdicts.len() && #[trigger] verdicts[i] == Verdict::Failed ==> exists|j: int|
                0 <= j < failed_positions(verdicts).len() && #[trigger] failed_positions(
                    verdicts,
                )[j] == i,
    decreases verdicts.len(),
{
    if verdicts.len() > 0 {
        let front = verdicts.drop_last();
        lemma_failed_positions(front);
        let fp = failed_positions(verdicts);
        let ff = failed_positions(front);
        assert forall|i: int|
            0 <= i < verdicts.len() && #[trigger] verdicts[i] == Verdict::Failed implies exists|
            j: int,
        |
            0 <= j < fp.len() && #[trigger] fp[j] == i by {
            if i < front.len() {
                assert(front[i] == Verdict::Failed);
                let j = choose|j: int| 0 <= j < ff.len() && #[trigger] ff[j] == i;
                assert(fp[j] == i);
            } else {
                assert(fp[fp.len() - 1] == i);
            }
        }
    }
}

/// What holds of every state that a run can be in.
pub open spec fn consistent(s: OrchestratorView) -> bool {
    let failed = failed_positions(s.verdicts);
    &&& s.verdicts.len() <= s.targets.len()
    &&& s.run.runs_done < planned_runs(s.config)
    &&& s.run.timed.len() <= s.run.runs_done
    &&& s.run.runs_done > 0 ==> s.active()
    &&& s.result.failures.len() == failed.len()
    &&& forall|j: int|
        0 <= j < failed.len() ==> {
            &&& !(#[trigger] s.result.failures[j]).status.succeeded()
            &&& s.result.failures[j] == failure_of(
                s.targets[failed[j]],
                s.result.failures[j].status,
            )
        }
    &&& s.result.timings.len() <= s.verdicts.len()
    &&& forall|k: int|
        0 <= k < s.result.timings.len() ==> {
            &&& 1 <= (#[trigger] s.result.timings[k]).summary.count <= planned_runs(s.config)
            &&& s.result.timings[k].position < s.verdicts.len()
            &&& s.result.timings[k].target == s.targets[s.result.timings[k].position as int].identity()
        }
    &&& forall|k: int, l: int|
        0 <= k < l < s.result.timings.len() ==> (#[trigger] s.result.timings[k]).position < (
        #[trigger] s.result.timings[l]).position
    &&& s.config.run_count <= 1 ==> s.result.timings.len() == 0 && s.run.timed.len() == 0
    &&& s.config.no_run ==> s.verdicts.len() == 0 && s.run == fresh_run()
    &&& !s.config.fail_fast ==> s.controller == ControllerState::Running
    &&& s.config.fail_fast ==> (s.controller == ControllerState::Stopped <==> failed.len() > 0)
    &&& s.config.fail_fast && failed.len() > 0 ==> failed.len() == 1 && s.verdicts.last()
        == Verdict::Failed
}

/// A run begins in a consistent state.
pub proof fn lemma_initial_consistent(config: RunConfigurationView, targets: Seq<TestTargetView>)
    ensures
        consistent(initial(config, targets)),
{
}

/// Taking in a report keeps a state consistent.
pub proof fn lemma_step_consistent(s: OrchestratorView, report: RunReport)
    requires
        consistent(s),
    ensures
        consistent(step(s, report)),
{
    let t = step(s, report);
    if s.active() && t.verdicts.len() > s.verdicts.len() {
        assert(t.verdicts.drop_last() =~= s.verdicts);
        lemma_failed_positions(s.verdicts);
    }
}

/// Every state that a run reaches is consistent.
pub proof fn lemma_reachable_consistent(
    config: RunConfigurationView,
    targets: Seq<TestTargetView>,
    reports: Seq<RunReport>,
)
    ensures
        consistent(drive(initial(config, targets), reports)),
    decreases reports.len(),
{
    if reports.len() == 0 {
        lemma_initial_consistent(config, targets);
    } else {
        lemma_reachable_consistent(config, targets, reports.drop_last());
        lemma_step_consistent(drive(initial(config, targets), reports.drop_last()), reports.last());
    }
}

/// What is fixed when a run begins stays as it is.
pub proof fn lemma_drive_keeps_plan(s: OrchestratorView, reports: Seq<RunReport>)
    ensures
        drive(s, reports).config == s.config,
        drive(s, reports).targets == s.targets,
    decreases reports.len(),
{
    if reports.len() > 0 {
        lemma_drive_keeps_plan(s, reports.drop_last());
    }
}

} // verus!

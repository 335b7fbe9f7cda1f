use crate::aggregate::{
    empty_result, lemma_timing_position, timing_position, AggregatedResultView, FailureMode,
    TargetTimingView,
};
use crate::config::{is_timed_run, is_warmup_run, planned_runs, RunConfigurationView};
use crate::consistency::{
    consistent, failed_positions, lemma_drive_keeps_plan, lemma_failed_positions,
    lemma_reachable_consistent,
};
use crate::controller::ControllerState;
use crate::executor::{fresh_run, TargetRunView};
use crate::orchestrator::{
    drive, initial, invocation_of, lemma_drive_from_inactive, lemma_drive_split, step,
    OrchestratorView, Verdict,
};
use crate::process::{failure_of, RunReport};
use crate::target::{distinct_identities, TestTargetView};
use crate::timing::summary_of;
use vstd::prelude::*;

verus! {

/// Under fail-fast the first failure ends the run: the target that failed
/// is the last that was started, its failure is the only one, and whatever
/// is reported afterwards changes nothing.
pub proof fn law_fail_fast_stops(s: OrchestratorView, failing: RunReport, later: Seq<RunReport>)
    requires
        consistent(s),
        s.config.fail_fast,
        s.active(),
        !failing.status.succeeded(),
    ensures
        !step(s, failing).active(),
        invocation_of(step(s, failing)) is None,
        step(s, failing).verdicts == s.verdicts.push(Verdict::Failed),
        step(s, failing).attempted() == s.verdicts.len() + 1,
        step(s, failing).result.failures == seq![failure_of(s.current(), failing.status)],
        step(s, failing).result.mode() == FailureMode::SingleFailure,
        drive(step(s, failing), later) == step(s, failing),
{
    let t = step(s, failing);
    assert(s.result.failures =~= Seq::empty());
    assert(t.result.failures =~= seq![failure_of(s.current(), failing.status)]);
    lemma_drive_from_inactive(t, later);
}

/// Under fail-fast, when the first target in execution order fails, it is
/// the only target that is ever started.
pub proof fn law_fail_fast_first_target(
    config: RunConfigurationView,
    targets: Seq<TestTargetView>,
    passing: Seq<RunReport>,
    failing: RunReport,
    later: Seq<RunReport>,
)
    requires
        config.fail_fast,
        !config.no_run,
        targets.len() > 0,
        passing.len() < planned_runs(config),
        all_passed(passing),
        !failing.status.succeeded(),
    ensures
        ({
            let end = drive(initial(config, targets), passing + seq![failing] + later);
            &&& !end.active()
            &&& end.attempted() == 1
            &&& end.verdicts == seq![Verdict::Failed]
            &&& end.result.failures == seq![failure_of(targets[0], failing.status)]
        }),
{
    let start = initial(config, targets);
    lemma_target_in_progress(start, passing);
    let s = drive(start, passing);
    lemma_reachable_consistent(config, targets, passing);
    lemma_drive_keeps_plan(start, passing);
    law_fail_fast_stops(s, failing, later);
    lemma_drive_split(start, passing, seq![failing]);
    assert(seq![failing].drop_last() =~= Seq::<RunReport>::empty());
    assert(drive(s, seq![failing].drop_last()) == s);
    assert(drive(s, seq![failing]) == step(s, failing));
    lemma_drive_split(start, passing + seq![failing], later);
    assert(s.verdicts.push(Verdict::Failed) =~= seq![Verdict::Failed]);
}

/// The durations that enter the timing summary of a target whose runs were
/// reported as `reports`, the first of them being its first run.
pub open spec fn timed_durations(c: RunConfigurationView, reports: Seq<RunReport>) -> Seq<u64>
    decreases reports.len(),
{
    if reports.len() == 0 {
        Seq::empty()
    } else if is_timed_run(
        c,
        (reports.len() - 1) as nat,
        reports[0].started_at,
        reports.last().started_at,
    ) {
        timed_durations(c, reports.drop_last()).push(reports.last().duration)
    } else {
        timed_durations(c, reports.drop_last())
    }
}

/// Whether every report is that of a run that passed.
pub open spec fn all_passed(reports: Seq<RunReport>) -> bool {
    forall|i: int| 0 <= i < reports.len() ==> (#[trigger] reports[i]).status.succeeded()
}

/// While the runs of a target pass and are fewer than planned, the target
/// stays the one that is run, and nothing but its progress changes.
pub proof fn lemma_target_in_progress(s: OrchestratorView, passing: Seq<RunReport>)
    requires
        s.active(),
        s.run == fresh_run(),
        passing.len() < planned_runs(s.config),
        all_passed(passing),
    ensures
        drive(s, passing) == (OrchestratorView {
            run: TargetRunView {
                runs_done: passing.len(),
                first_start: if passing.len() > 0 {
                    passing[0].started_at
                } else {
                    0
                },
                timed: timed_durations(s.config, passing),
            },
            ..s
        }),
        drive(s, passing).active(),
    decreases passing.len(),
{
    if passing.len() > 0 {
        let front = passing.drop_last();
        assert(all_passed(front)) by {
            assert forall|i: int| 0 <= i < front.len() implies (#[trigger] front[i]).status.succeeded() by {
                assert(front[i] == passing[i]);
            }
        }
        lemma_target_in_progress(s, front);
        assert(passing.last() == passing[passing.len() - 1]);
        if front.len() > 0 {
            assert(front[0] == passing[0]);
        }
    }
}

/// A target whose planned runs all pass gets the verdict `Passed`, and the
/// summary of the durations of its timed runs, if there are any, enters the
/// result; nothing else changes.
pub proof fn law_target_timing(s: OrchestratorView, reports: Seq<RunReport>)
    requires
        s.active(),
        s.run == fresh_run(),
        reports.len() == planned_runs(s.config),
        all_passed(reports),
    ensures
        drive(s, reports) == (OrchestratorView {
            verdicts: s.verdicts.push(Verdict::Passed),
            result: AggregatedResultView {
                failures: s.result.failures,
                timings: if timed_durations(s.config, reports).len() > 0 {
                    s.result.timings.push(
                        TargetTimingView {
                            position: s.verdicts.len(),
                            target: s.current().identity(),
                            summary: summary_of(timed_durations(s.config, reports)),
                        },
                    )
                } else {
                    s.result.timings
                },
            },
            ..s
        }),
{
    let front = reports.drop_last();
    assert(all_passed(front)) by {
        assert forall|i: int| 0 <= i < front.len() implies (#[trigger] front[i]).status.succeeded() by {
            assert(front[i] == reports[i]);
        }
    }
    lemma_target_in_progress(s, front);
    assert(reports.last() == reports[reports.len() - 1]);
    if front.len() > 0 {
        assert(front[0] == reports[0]);
    }
}

/// Where targets are run more than once and no warmup time is set, every
/// run is timed: a target whose runs all pass has as many timed durations
/// as runs.
pub proof fn law_all_runs_timed_without_warmup(c: RunConfigurationView, reports: Seq<RunReport>)
    requires
        c.run_count > 1,
        c.warmup_seconds == 0,
    ensures
        timed_durations(c, reports).len() == reports.len(),
        forall|i: int|
            0 <= i < reports.len() ==> #[trigger] timed_durations(c, reports)[i]
                == reports[i].duration,
        reports.len() > 0 ==> summary_of(timed_durations(c, reports)).count == reports.len() as usize,
    decreases reports.len(),
{
    if reports.len() > 0 {
        let front = reports.drop_last();
        law_all_runs_timed_without_warmup(c, front);
        assert forall|i: int| 0 <= i < reports.len() implies #[trigger] timed_durations(
            c,
            reports,
        )[i] == reports[i].duration by {
            if i < front.len() {
                assert(front[i] == reports[i]);
            }
        }
    }
}

/// How many of the runs reported as `reports` were warmup runs, the first of
/// the reports being that of the target's first run.
pub open spec fn warmup_runs(c: RunConfigurationView, reports: Seq<RunReport>) -> nat
    decreases reports.len(),
{
    if reports.len() == 0 {
        0
    } else if is_warmup_run(
        c,
        (reports.len() - 1) as nat,
        reports[0].started_at,
        reports.last().started_at,
    ) {
        warmup_runs(c, reports.drop_last()) + 1
    } else {
        warmup_runs(c, reports.drop_last())
    }
}

/// Where targets are run more than once, each run is either a warmup run or
/// a timed run: the timed durations are as many as the runs that did not
/// warm up. Where targets are run once, nothing is timed.
pub proof fn law_runs_warm_up_or_are_timed(c: RunConfigurationView, reports: Seq<RunReport>)
    ensures
        c.run_count > 1 ==> timed_durations(c, reports).len() + warmup_runs(c, reports)
            == reports.len(),
        c.run_count <= 1 ==> timed_durations(c, reports).len() == 0,
    decreases reports.len(),
{
    if reports.len() > 0 {
        law_runs_warm_up_or_are_timed(c, reports.drop_last());
    }
}

/// A run is timed exactly where the target is run more than once and the
/// run is no warmup run; the last planned run is never a warmup run.
pub proof fn law_warmup_leaves_a_timed_run(
    c: RunConfigurationView,
    index: nat,
    first_start: u64,
    started_at: u64,
)
    requires
        c.run_count > 1,
    ensures
        is_timed_run(c, index, first_start, started_at) != is_warmup_run(
            c,
            index,
            first_start,
            started_at,
        ),
        index + 1 == planned_runs(c) ==> is_timed_run(c, index, first_start, started_at),
{
}

/// Without fail-fast the run goes on whatever fails: it is over only when
/// every target has its verdict, one for each in execution order, and there
/// are as many failures as targets with the verdict `Failed`, each failure
/// being that of its target.
pub proof fn law_run_all_regardless(
    config: RunConfigurationView,
    targets: Seq<TestTargetView>,
    reports: Seq<RunReport>,
)
    requires
        !config.fail_fast,
        !config.no_run,
    ensures
        ({
            let s = drive(initial(config, targets), reports);
            let failed = failed_positions(s.verdicts);
            &&& s.controller == ControllerState::Running
            &&& s.verdicts.len() <= targets.len()
            &&& !s.active() <==> s.verdicts.len() == targets.len()
            &&& !s.active() ==> s.attempted() == targets.len()
            &&& s.result.failures.len() == failed.len()
            &&& forall|j: int|
                0 <= j < failed.len() ==> {
                    &&& 0 <= #[trigger] failed[j] < s.verdicts.len()
                    &&& s.verdicts[failed[j]] == Verdict::Failed
                    &&& s.result.failures[j].target == targets[failed[j]].identity()
                }
            &&& forall|i: int|
                0 <= i < s.verdicts.len() && #[trigger] s.verdicts[i] == Verdict::Failed
                    ==> exists|j: int| 0 <= j < failed.len() && #[trigger] failed[j] == i
        }),
{
    let s = drive(initial(config, targets), reports);
    lemma_reachable_consistent(config, targets, reports);
    lemma_drive_keeps_plan(initial(config, targets), reports);
    lemma_failed_positions(s.verdicts);
}

/// Where no two targets have the same identity, the timing summaries are a
/// mapping: no identity has two summaries, and looking an identity up finds
/// the summary of the target that it names.
pub proof fn law_timings_form_a_mapping(s: OrchestratorView)
    requires
        consistent(s),
        distinct_identities(s.targets),
    ensures
        forall|k: int, l: int|
            0 <= k < l < s.result.timings.len() ==> (#[trigger] s.result.timings[k]).target != (
            #[trigger] s.result.timings[l]).target,
        forall|k: int|
            0 <= k < s.result.timings.len() ==> s.result.timing_of(
                (#[trigger] s.result.timings[k]).target,
            ) == Some(s.result.timings[k].summary),
{
    let timings = s.result.timings;
    assert forall|k: int, l: int| 0 <= k < l < timings.len() implies (#[trigger] timings[k]).target
        != (#[trigger] timings[l]).target by {
        let (p, q) = (timings[k].position as int, timings[l].position as int);
        assert(s.targets[p].identity() != s.targets[q].identity());
    }
    assert forall|k: int| 0 <= k < timings.len() implies s.result.timing_of(
        (#[trigger] timings[k]).target,
    ) == Some(timings[k].summary) by {
        lemma_timing_position(timings, timings[k].target);
        let found = timing_position(timings, timings[k].target);
        if found < k {
            assert(timings[found].target != timings[k].target);
        }
    }
}

/// The classification of a consistent state: no failure exactly where no
/// target has the verdict `Failed`; and where there is a single failure, it
/// names the one target with that verdict.
pub proof fn law_classification(s: OrchestratorView)
    requires
        consistent(s),
    ensures
        s.result.failures.len() == 0 ==> s.result.mode() == FailureMode::NoFailure,
        s.result.failures.len() == 1 ==> s.result.mode() == FailureMode::SingleFailure,
        s.result.failures.len() >= 2 ==> s.result.mode() == FailureMode::MultipleFailures,
        s.result.mode() == FailureMode::NoFailure <==> forall|i: int|
            0 <= i < s.verdicts.len() ==> #[trigger] s.verdicts[i] == Verdict::Passed,
        s.result.mode() == FailureMode::SingleFailure ==> exists|p: int|
            {
                &&& 0 <= p < s.verdicts.len()
                &&& #[trigger] s.verdicts[p] == Verdict::Failed
                &&& s.result.failures[0].target == s.targets[p].identity()
                &&& forall|i: int|
                    0 <= i < s.verdicts.len() && i != p ==> #[trigger] s.verdicts[i]
                        == Verdict::Passed
            },
{
    let failed = failed_positions(s.verdicts);
    lemma_failed_positions(s.verdicts);
    if failed.len() == 0 {
        assert forall|i: int| 0 <= i < s.verdicts.len() implies #[trigger] s.verdicts[i]
            == Verdict::Passed by {
            if s.verdicts[i] == Verdict::Failed {
                let j = choose|j: int| 0 <= j < failed.len() && #[trigger] failed[j] == i;
            }
        }
    } else {
        assert(s.verdicts[failed[0]] == Verdict::Failed);
    }
    if failed.len() == 1 {
        let p = failed[0];
        assert(s.verdicts[p] == Verdict::Failed);
        assert forall|i: int| 0 <= i < s.verdicts.len() && i != p implies #[trigger] s.verdicts[i]
            == Verdict::Passed by {
            if s.verdicts[i] == Verdict::Failed {
                let j = choose|j: int| 0 <= j < failed.len() && #[trigger] failed[j] == i;
            }
        }
    }
}

/// A run that is told to execute nothing asks for no launch, ignores every
/// report, and ends in success with no timings.
pub proof fn law_no_run(
    config: RunConfigurationView,
    targets: Seq<TestTargetView>,
    reports: Seq<RunReport>,
)
    requires
        config.no_run,
    ensures
        invocation_of(initial(config, targets)) is None,
        drive(initial(config, targets), reports) == initial(config, targets),
        drive(initial(config, targets), reports).attempted() == 0,
        drive(initial(config, targets), reports).result == empty_result(),
        empty_result().mode() == FailureMode::NoFailure,
        empty_result().exit_code() == 0,
        empty_result().timings.len() == 0,
{
    lemma_drive_from_inactive(initial(config, targets), reports);
}

} // verus!

use cargo_measuretests::aggregate::{AggregatedResult, FailureMode, TargetTiming};
use cargo_measuretests::process::{
    ProcessFailure, ProcessStatus, RunOutcome, RunReport, RunResult,
};
use cargo_measuretests::target::{TargetKind, TestTarget};
use cargo_measuretests::timing::{summarize, TimingSummary};

fn target(package: &str, kind: TargetKind, name: &str) -> TestTarget {
    TestTarget {
        package_name: package.to_string(),
        target_kind: kind,
        target_name: name.to_string(),
        executable_path: String::new(),
        harness: true,
    }
}

fn failure(name: &str, status: ProcessStatus) -> ProcessFailure {
    ProcessFailure::new(&target("pkg", TargetKind::Test, name), status)
}

#[test]
fn only_exit_code_zero_is_success() {
    assert!(ProcessStatus::Exited(0).is_success());
    assert!(!ProcessStatus::Exited(1).is_success());
    assert!(!ProcessStatus::Exited(-1).is_success());
    assert!(!ProcessStatus::Signaled(0).is_success());
    assert!(!ProcessStatus::Signaled(9).is_success());
    assert!(!ProcessStatus::SpawnFailed.is_success());
}

#[test]
fn hints_name_the_target() {
    let hint = |kind, name: &str| {
        ProcessFailure::new(&target("pkgA", kind, name), ProcessStatus::Exited(101)).hint
    };
    assert_eq!(hint(TargetKind::Lib, "pkgA"), "test failed, to rerun pass '-p pkgA --lib'");
    assert_eq!(hint(TargetKind::Bin, "tool"), "test failed, to rerun pass '-p pkgA --bin tool'");
    assert_eq!(hint(TargetKind::Test, "t2"), "test failed, to rerun pass '-p pkgA --test t2'");
    assert_eq!(
        hint(TargetKind::Example, "demo"),
        "test failed, to rerun pass '-p pkgA --example demo'"
    );
    assert_eq!(hint(TargetKind::Bench, "fast"), "test failed, to rerun pass '-p pkgA --bench fast'");
    assert_eq!(hint(TargetKind::Doctest, "pkgA"), "test failed, to rerun pass '-p pkgA --doc'");
}

#[test]
fn hint_tells_a_spawn_failure_apart() {
    let f = ProcessFailure::new(&target("pkgA", TargetKind::Test, "t2"), ProcessStatus::SpawnFailed);
    assert_eq!(f.hint, "test could not be started, to rerun pass '-p pkgA --test t2'");
    let g = ProcessFailure::new(&target("pkgA", TargetKind::Test, "t2"), ProcessStatus::Signaled(11));
    assert_eq!(g.hint, "test failed, to rerun pass '-p pkgA --test t2'");
}

#[test]
fn failure_carries_identity_and_status() {
    let t = target("pkgA", TargetKind::Test, "t2");
    let f = ProcessFailure::new(&t, ProcessStatus::Signaled(6));
    assert_eq!(f.target, t.identity());
    assert_eq!(f.status, ProcessStatus::Signaled(6));
    assert_eq!(f.exit_code(), None);
    assert_eq!(ProcessFailure::new(&t, ProcessStatus::Exited(3)).exit_code(), Some(3));
    assert_eq!(ProcessFailure::new(&t, ProcessStatus::SpawnFailed).exit_code(), None);
    assert_eq!(f.duplicate(), f);
}

#[test]
fn outcome_of_a_passing_run() {
    let t = target("pkgA", TargetKind::Test, "t1");
    let o = RunOutcome::from_report(
        &t,
        &RunReport { started_at: 5, duration: 1234, status: ProcessStatus::Exited(0) },
    );
    assert_eq!(o, RunOutcome { duration: 1234, result: RunResult::Passed });
    assert!(o.passed());
}

#[test]
fn outcome_of_a_failing_run() {
    let t = target("pkgA", TargetKind::Test, "t1");
    let o = RunOutcome::from_report(
        &t,
        &RunReport { started_at: 5, duration: 77, status: ProcessStatus::Exited(2) },
    );
    assert_eq!(o.duration, 77);
    assert!(!o.passed());
    assert_eq!(o.result, RunResult::Failed(ProcessFailure::new(&t, ProcessStatus::Exited(2))));
}

#[test]
fn summary_of_no_run_is_none() {
    assert_eq!(summarize(&Vec::new()), None);
}

#[test]
fn summary_of_one_run() {
    assert_eq!(summarize(&vec![42]), Some(TimingSummary { count: 1, mean: 42, min: 42, max: 42 }));
}

#[test]
fn summary_has_exact_values() {
    assert_eq!(
        summarize(&vec![30, 10, 20, 50]),
        Some(TimingSummary { count: 4, mean: 27, min: 10, max: 50 })
    );
    assert_eq!(
        summarize(&vec![1, 2]),
        Some(TimingSummary { count: 2, mean: 1, min: 1, max: 2 })
    );
}

#[test]
fn summary_does_not_overflow() {
    assert_eq!(
        summarize(&vec![u64::MAX, u64::MAX, u64::MAX - 3]),
        Some(TimingSummary { count: 3, mean: u64::MAX - 1, min: u64::MAX - 3, max: u64::MAX })
    );
}

#[test]
fn empty_result_is_success() {
    let r = AggregatedResult::new();
    assert!(r.failures.is_empty());
    assert!(r.timings.is_empty());
    assert_eq!(r.mode(), FailureMode::NoFailure);
    assert!(r.is_success());
    assert_eq!(r.single_failure(), None);
    assert_eq!(r.exit_code(), 0);
    assert_eq!(r.message(), None);
}

#[test]
fn one_failure_is_a_single_failure() {
    let mut r = AggregatedResult::new();
    r.record_failure(failure("t2", ProcessStatus::Exited(7)));
    assert_eq!(r.mode(), FailureMode::SingleFailure);
    assert!(!r.is_success());
    assert_eq!(r.single_failure(), Some(&failure("t2", ProcessStatus::Exited(7))));
    assert_eq!(r.exit_code(), 7);
    assert_eq!(r.message(), Some("test failed, to rerun pass '-p pkg --test t2'".to_string()));
}

#[test]
fn two_failures_are_multiple_failures() {
    let mut r = AggregatedResult::new();
    r.record_failure(failure("t1", ProcessStatus::Exited(7)));
    r.record_failure(failure("t2", ProcessStatus::Exited(9)));
    assert_eq!(r.mode(), FailureMode::MultipleFailures);
    assert_eq!(r.single_failure(), None);
    assert_eq!(r.exit_code(), 101);
    assert_eq!(r.message(), Some("2 test targets failed".to_string()));
    assert_eq!(r.failures[0].target.target_name, "t1");
    assert_eq!(r.failures[1].target.target_name, "t2");
}

#[test]
fn many_failures_are_counted_in_the_message() {
    let mut r = AggregatedResult::new();
    for i in 0..12 {
        r.record_failure(failure(&format!("t{}", i), ProcessStatus::Exited(1)));
    }
    assert_eq!(r.mode(), FailureMode::MultipleFailures);
    assert_eq!(r.message(), Some("12 test targets failed".to_string()));
    assert_eq!(r.exit_code(), 101);
}

#[test]
fn single_failure_without_exit_code_gets_the_generic_code() {
    let mut r = AggregatedResult::new();
    r.record_failure(failure("t", ProcessStatus::Signaled(9)));
    assert_eq!(r.exit_code(), 101);
    let mut s = AggregatedResult::new();
    s.record_failure(failure("t", ProcessStatus::SpawnFailed));
    assert_eq!(s.exit_code(), 101);
}

#[test]
fn exit_code_of_a_failure_is_never_zero() {
    let mut r = AggregatedResult::new();
    r.record_failure(failure("t", ProcessStatus::Exited(0)));
    assert_eq!(r.exit_code(), 101);
    let mut s = AggregatedResult::new();
    s.record_failure(failure("t", ProcessStatus::Exited(-2)));
    assert_eq!(s.exit_code(), -2);
}

#[test]
fn timings_are_found_by_identity() {
    let a = target("pkg", TargetKind::Test, "a").identity();
    let b = target("pkg", TargetKind::Test, "b").identity();
    let c = target("pkg", TargetKind::Bin, "a").identity();
    let sa = TimingSummary { count: 2, mean: 5, min: 4, max: 6 };
    let sb = TimingSummary { count: 1, mean: 9, min: 9, max: 9 };
    let mut r = AggregatedResult::new();
    r.record_timing(TargetTiming { position: 0, target: a.clone(), summary: sa });
    r.record_timing(TargetTiming { position: 1, target: b.clone(), summary: sb });
    assert_eq!(r.timing_of(&a), Some(sa));
    assert_eq!(r.timing_of(&b), Some(sb));
    assert_eq!(r.timing_of(&c), None);
    assert!(r.failures.is_empty());
    assert_eq!(r.timings.len(), 2);
}

#[test]
fn the_first_timing_of_an_identity_is_found() {
    let a = target("pkg", TargetKind::Test, "a").identity();
    let first = TimingSummary { count: 1, mean: 1, min: 1, max: 1 };
    let second = TimingSummary { count: 1, mean: 2, min: 2, max: 2 };
    let mut r = AggregatedResult::new();
    r.record_timing(TargetTiming { position: 0, target: a.clone(), summary: first });
    r.record_timing(TargetTiming { position: 1, target: a.clone(), summary: second });
    assert_eq!(r.timing_of(&a), Some(first));
}

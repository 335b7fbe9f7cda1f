use cargo_measuretests::config::RunConfiguration;
use cargo_measuretests::options::{
    plan, CompileMode, CompileOptions, ConfigError, Selection, TargetFilter, TestOptions,
    TestRequest, GENERIC_FAILURE,
};
use cargo_measuretests::target::{TargetKind, TestTarget};

fn request() -> TestRequest {
    TestRequest {
        test_name_given: false,
        doc: false,
        no_run: false,
        no_fail_fast: false,
        selection: Selection::Implicit,
    }
}

fn target(harness: bool) -> TestTarget {
    TestTarget {
        package_name: "pkg".to_string(),
        target_kind: TargetKind::Test,
        target_name: "t".to_string(),
        executable_path: "/build/t".to_string(),
        harness,
    }
}

#[test]
fn plain_request_is_kept() {
    assert_eq!(
        plan(&request()),
        Ok(TestOptions {
            compile_opts: CompileOptions { mode: CompileMode::Test, filter: TargetFilter::AsRequested },
            no_run: false,
            no_fail_fast: false,
        })
    );
}

#[test]
fn flags_are_handed_on() {
    let r = TestRequest { no_run: true, no_fail_fast: true, ..request() };
    let options = plan(&r).unwrap();
    assert!(options.no_run);
    assert!(options.no_fail_fast);
    assert_eq!(options.compile_opts.mode, CompileMode::Test);
}

#[test]
fn test_name_widens_an_implicit_selection() {
    let r = TestRequest { test_name_given: true, ..request() };
    assert_eq!(plan(&r).unwrap().compile_opts.filter, TargetFilter::FilterableTargets);
}

#[test]
fn test_name_leaves_an_explicit_selection() {
    let r = TestRequest { test_name_given: true, selection: Selection::Explicit, ..request() };
    assert_eq!(plan(&r).unwrap().compile_opts.filter, TargetFilter::AsRequested);
}

#[test]
fn doc_asks_for_library_docs() {
    let r = TestRequest { doc: true, test_name_given: true, ..request() };
    assert_eq!(
        plan(&r).unwrap().compile_opts,
        CompileOptions { mode: CompileMode::Doctest, filter: TargetFilter::LibraryDocs }
    );
}

#[test]
fn doc_with_selection_is_refused() {
    let r = TestRequest { doc: true, selection: Selection::Explicit, ..request() };
    assert_eq!(plan(&r), Err(ConfigError::DocWithTargetSelection));
}

#[test]
fn doc_with_no_run_is_refused() {
    let r = TestRequest { doc: true, no_run: true, ..request() };
    assert_eq!(plan(&r), Err(ConfigError::DocWithNoRun));
}

#[test]
fn selection_conflict_is_reported_first() {
    let r = TestRequest { doc: true, no_run: true, selection: Selection::Explicit, ..request() };
    assert_eq!(plan(&r), Err(ConfigError::DocWithTargetSelection));
}

#[test]
fn config_errors_have_messages_and_the_generic_code() {
    assert_eq!(
        ConfigError::DocWithTargetSelection.message(),
        "Can't mix --doc with other target selecting options"
    );
    assert_eq!(ConfigError::DocWithNoRun.message(), "Can't skip running doc tests with --no-run");
    assert_eq!(ConfigError::DocWithTargetSelection.exit_code(), 101);
    assert_eq!(ConfigError::DocWithNoRun.exit_code(), GENERIC_FAILURE);
}

#[test]
fn minimal_configuration() {
    let c = RunConfiguration::minimal();
    assert_eq!(c.run_count, 1);
    assert_eq!(c.warmup_seconds, 0);
    assert!(c.fail_fast);
    assert!(!c.no_run);
    assert!(!c.quiet);
    assert_eq!(c.test_name_filter, None);
    assert!(c.pass_through_args.is_empty());
}

#[test]
fn timing_configuration() {
    let c = RunConfiguration::timing();
    assert_eq!(c.run_count, 32);
    assert_eq!(c.warmup_seconds, 3);
    assert!(c.fail_fast);
    assert!(!c.no_run);
}

#[test]
fn zero_runs_count_as_one() {
    let mut c = RunConfiguration::minimal();
    c.run_count = 0;
    assert_eq!(c.runs(), 1);
    c.run_count = 1;
    assert_eq!(c.runs(), 1);
    c.run_count = 32;
    assert_eq!(c.runs(), 32);
}

#[test]
fn arguments_without_anything_are_empty() {
    let c = RunConfiguration::minimal();
    assert!(c.arguments(&target(true)).is_empty());
}

#[test]
fn arguments_put_the_filter_first() {
    let mut c = RunConfiguration::minimal();
    c.test_name_filter = Some("foo".to_string());
    c.pass_through_args = vec!["--test-threads".to_string(), "3".to_string()];
    assert_eq!(c.arguments(&target(true)), vec!["foo", "--test-threads", "3"]);
}

#[test]
fn arguments_keep_pass_through_order() {
    let mut c = RunConfiguration::minimal();
    c.pass_through_args = vec!["b".to_string(), "a".to_string(), "b".to_string()];
    assert_eq!(c.arguments(&target(false)), vec!["b", "a", "b"]);
}

#[test]
fn quiet_is_appended_for_the_built_in_harness() {
    let mut c = RunConfiguration::minimal();
    c.quiet = true;
    c.test_name_filter = Some("foo".to_string());
    c.pass_through_args = vec!["--nocapture".to_string()];
    assert_eq!(c.arguments(&target(true)), vec!["foo", "--nocapture", "--quiet"]);
}

#[test]
fn quiet_is_left_out_for_another_harness() {
    let mut c = RunConfiguration::minimal();
    c.quiet = true;
    c.pass_through_args = vec!["x".to_string()];
    assert_eq!(c.arguments(&target(false)), vec!["x"]);
}

#[test]
fn warmup_needs_several_runs_and_a_warmup_time() {
    let mut c = RunConfiguration::timing();
    c.run_count = 1;
    assert!(!c.is_warmup(0, 0, 0));
    c.run_count = 10;
    c.warmup_seconds = 0;
    assert!(!c.is_warmup(0, 0, 0));
    c.warmup_seconds = 3;
    assert!(c.is_warmup(0, 0, 0));
}

#[test]
fn warmup_ends_when_the_time_is_up() {
    let mut c = RunConfiguration::timing();
    c.run_count = 10;
    c.warmup_seconds = 3;
    assert!(c.is_warmup(1, 1_000, 1_000 + 2_999_999));
    assert!(!c.is_warmup(1, 1_000, 1_000 + 3_000_000));
    assert!(!c.is_warmup(1, 1_000, 1_000 + 3_000_001));
}

#[test]
fn warmup_never_takes_the_last_run() {
    let mut c = RunConfiguration::timing();
    c.run_count = 4;
    c.warmup_seconds = 100;
    assert!(c.is_warmup(0, 0, 0));
    assert!(c.is_warmup(2, 0, 5));
    assert!(!c.is_warmup(3, 0, 6));
    assert!(c.is_timed(3, 0, 6));
    assert!(!c.is_timed(2, 0, 5));
}

#[test]
fn warmup_time_may_be_huge() {
    let mut c = RunConfiguration::timing();
    c.run_count = 3;
    c.warmup_seconds = u64::MAX;
    assert!(c.is_warmup(0, 0, u64::MAX));
    assert!(c.is_warmup(1, 5, 2));
}

#[test]
fn single_runs_are_not_timed() {
    let c = RunConfiguration::minimal();
    assert!(!c.is_timed(0, 0, 0));
    assert!(!c.is_warmup(0, 0, 0));
}

#[test]
fn configuration_follows_the_options() {
    let options = plan(&TestRequest { no_fail_fast: true, ..request() }).unwrap();
    let c = RunConfiguration::from_options(
        &options,
        Some("foo".to_string()),
        vec!["--nocapture".to_string()],
        32,
        3,
        true,
    );
    assert!(!c.fail_fast);
    assert!(!c.no_run);
    assert_eq!(c.test_name_filter, Some("foo".to_string()));
    assert_eq!(c.pass_through_args, vec!["--nocapture"]);
    assert_eq!(c.run_count, 32);
    assert_eq!(c.warmup_seconds, 3);
    assert!(c.quiet);
    let skip = plan(&TestRequest { no_run: true, ..request() }).unwrap();
    let d = RunConfiguration::from_options(&skip, None, Vec::new(), 1, 0, false);
    assert!(d.fail_fast);
    assert!(d.no_run);
    assert_eq!(d.test_name_filter, None);
}

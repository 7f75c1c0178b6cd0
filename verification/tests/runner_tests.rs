use move_mutation_test::paths::PathSteps;
use move_mutation_test::runner::{
    baseline_profile, baseline_verdict, classify_engine_result, coverage_map_path,
    mutant_profile, trace_cleanup_path, unit_test_request, CompilerConfigModel, EngineRawResult,
    MovePackageConfig, TestBuildConfig, TestOutcome,
};
use move_mutation_test::session::{MutationSession, SessionOrderError};

fn path_of(steps: &[&str]) -> PathSteps {
    PathSteps::from_steps(steps.iter().map(|s| s.to_string()).collect())
}

fn sample_config() -> TestBuildConfig {
    TestBuildConfig {
        move_pkg: MovePackageConfig {
            dev: false,
            named_addresses: vec![("std".to_string(), 1), ("app".to_string(), 42)],
            check_test_code: true,
            output_dir: None,
        },
        compiler: CompilerConfigModel {
            skip_attribute_checks: false,
            known_attributes: vec![],
            language_version: None,
            compiler_version: None,
            experiments: vec![],
        },
        filter: Some("test_".to_string()),
        dump_state: true,
        ignore_compile_warnings: false,
        apply_coverage: true,
        gas_limit: 1000,
    }
}

#[test]
fn profiles_differ_as_documented() {
    let base = baseline_profile();
    assert!(base.report_statistics);
    assert!(!base.skip_fetch_latest_deps);
    assert!(!base.silent_output);

    let mutant = mutant_profile();
    assert!(!mutant.report_statistics);
    assert!(mutant.skip_fetch_latest_deps);
    assert!(mutant.silent_output);
}

#[test]
fn disable_coverage_changes_only_coverage() {
    let cfg = sample_config();
    let off = cfg.disable_coverage();
    assert!(!off.apply_coverage);
    assert_eq!(off.gas_limit, cfg.gas_limit);
    assert_eq!(off.filter, cfg.filter);
    assert_eq!(off.dump_state, cfg.dump_state);
    assert_eq!(off.move_pkg.named_addresses, cfg.move_pkg.named_addresses);
    assert_eq!(off.move_pkg.check_test_code, cfg.move_pkg.check_test_code);
}

#[test]
fn request_carries_budget_and_addresses() {
    let cfg = sample_config();
    let req = unit_test_request(&cfg, &mutant_profile());
    assert!(req.test_mode);
    assert_eq!(req.budget.steps, 1000);
    assert!(req.skip_fetch_latest_git_deps);
    assert!(!req.report_statistics);
    assert_eq!(req.filter, Some("test_".to_string()));
    assert!(req.report_storage_on_error);
    // The rendered bindings come sorted by name.
    assert_eq!(
        req.named_address_values,
        vec!["app=42".to_string(), "std=1".to_string()]
    );

    let base_req = unit_test_request(&cfg, &baseline_profile());
    assert!(!base_req.skip_fetch_latest_git_deps);
    assert!(base_req.report_statistics);
    assert_eq!(base_req.budget.steps, 1000);
}

#[test]
fn identical_runs_build_identical_requests() {
    let cfg = sample_config();
    let one = unit_test_request(&cfg, &mutant_profile());
    let two = unit_test_request(&cfg, &mutant_profile());
    assert_eq!(one.budget, two.budget);
    assert_eq!(one.named_address_values, two.named_address_values);
    assert_eq!(one.filter, two.filter);
    assert_eq!(one.test_mode, two.test_mode);
    assert_eq!(one.skip_fetch_latest_git_deps, two.skip_fetch_latest_git_deps);
}

#[test]
fn classification_is_exact() {
    assert_eq!(
        classify_engine_result(&EngineRawResult::Success),
        TestOutcome::Success
    );
    assert_eq!(
        classify_engine_result(&EngineRawResult::Failure),
        TestOutcome::Failure
    );
    assert_eq!(
        classify_engine_result(&EngineRawResult::Fault("disk gone".to_string())),
        TestOutcome::EngineError("failed to run unit tests: disk gone".to_string())
    );
}

#[test]
fn classification_is_deterministic() {
    let raw = EngineRawResult::Fault("same cause".to_string());
    assert_eq!(classify_engine_result(&raw), classify_engine_result(&raw));
}

#[test]
fn budget_cut_runs_never_classify_as_success() {
    // A mutant with an endless loop exhausts its step budget; the engine
    // reports that as a failure or a fault, never a success.
    assert_ne!(
        classify_engine_result(&EngineRawResult::Failure),
        TestOutcome::Success
    );
    assert_ne!(
        classify_engine_result(&EngineRawResult::Fault("step limit".to_string())),
        TestOutcome::Success
    );
}

#[test]
fn trace_cleanup_only_under_coverage() {
    let root = path_of(&["pkg"]);
    let trace = trace_cleanup_path(true, &root).expect("coverage leaves a trace");
    assert_eq!(trace.steps, vec!["pkg".to_string(), ".trace".to_string()]);
    assert!(trace_cleanup_path(false, &root).is_none());
}

#[test]
fn trace_cleanup_spares_the_coverage_map() {
    let root = path_of(&["pkg"]);
    let trace = trace_cleanup_path(true, &root).expect("coverage leaves a trace");
    let kept = coverage_map_path(&root);
    assert_eq!(kept.steps, vec!["pkg".to_string(), ".coverage_map.mvcov".to_string()]);
    assert!(!trace.path_eq(&kept));
}

#[test]
fn baseline_verdict_requires_success() {
    assert!(baseline_verdict(&TestOutcome::Success).is_ok());

    let failed = baseline_verdict(&TestOutcome::Failure).expect_err("failure is fatal");
    assert_eq!(
        failed.message,
        "Test suite is failing for the original code! Unit test failed with error: Move unit test error"
    );

    let faulted = baseline_verdict(&TestOutcome::EngineError("io error".to_string()))
        .expect_err("engine fault is fatal");
    assert_eq!(
        faulted.message,
        "Test suite is failing for the original code! Unit test failed with error: io error"
    );
}

#[test]
fn mutant_stage_never_entered_without_passing_baseline() {
    let mut session = MutationSession::new();
    assert_eq!(
        session.begin_mutant_run(),
        Err(SessionOrderError::BaselineNotPassed)
    );
    assert_eq!(session.mutants_run, 0);

    session.record_baseline(TestOutcome::Failure);
    assert!(!session.baseline_passed());
    assert_eq!(
        session.begin_mutant_run(),
        Err(SessionOrderError::BaselineNotPassed)
    );
    assert_eq!(session.mutants_run, 0);
}

#[test]
fn mutant_stage_runs_after_passing_baseline() {
    let mut session = MutationSession::new();
    session.record_baseline(TestOutcome::Success);
    assert!(session.baseline_passed());
    assert_eq!(session.begin_mutant_run(), Ok(()));
    assert_eq!(session.begin_mutant_run(), Ok(()));
    assert_eq!(session.mutants_run, 2);
}

#[test]
fn differential_session_scenario() {
    // A package with a passing suite: the baseline run succeeds and the
    // session opens for mutant work.
    let mut session = MutationSession::new();
    let baseline = classify_engine_result(&EngineRawResult::Success);
    assert!(baseline_verdict(&baseline).is_ok());
    session.record_baseline(baseline);

    // A mutant caught by an existing test is killed.
    assert_eq!(session.begin_mutant_run(), Ok(()));
    let killed = classify_engine_result(&EngineRawResult::Failure);
    assert_eq!(killed, TestOutcome::Failure);

    // A mutant in a dead branch survives.
    assert_eq!(session.begin_mutant_run(), Ok(()));
    let survived = classify_engine_result(&EngineRawResult::Success);
    assert_eq!(survived, TestOutcome::Success);

    // An endless-loop mutant runs out of its step budget: the engine
    // reports a failure (or a fault), never a success.
    assert_eq!(session.begin_mutant_run(), Ok(()));
    let looped = classify_engine_result(&EngineRawResult::Failure);
    assert_ne!(looped, TestOutcome::Success);

    assert_eq!(session.mutants_run, 3);
}

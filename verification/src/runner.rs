//! The differential test runner's decisions.
//!
//! One shared engine shape serves two call profiles: the baseline run
//! (sequential, visible output, dependency refresh allowed, statistics on)
//! and the mutant run (silent, refresh skipped, statistics off, coverage
//! disabled).  This module builds the exact request handed to the unit-test
//! engine, classifies what the engine reports into the session's tri-state
//! outcome, and names the artifacts a coverage-enabled run must clean up.
//! The engine invocation itself is the host driver's work; determinism of
//! everything decided here is proved, not hoped for.

use crate::addresses::{
    bindings_view, spec_address_entry, spec_merge_bindings, spec_sort_bindings, NamedAddressMap,
};
use crate::paths::PathSteps;
use vstd::prelude::*;

verus! {

/// A deterministic step ceiling substituted for wall-clock timeouts: a
/// mutant that loops forever runs out of budget instead of hanging, and the
/// outcome is reproducible under any host load.
#[derive(Debug, Clone, Copy, PartialEq, Eq, Structural)]
pub struct ExecutionBudget {
    pub steps: u64,
}

/// What the unit-test engine itself reports.
#[derive(Debug, Clone, PartialEq, Eq)]
pub enum EngineRawResult {
    /// Every test passed.
    Success,
    /// At least one test failed.
    Failure,
    /// The engine could not complete: a crash, an I/O fault, an internal
    /// error, carried with its message.
    Fault(String),
}

/// The tri-state result of one test session.  `EngineError` is distinct
/// from `Failure` on purpose: an engine fault must never be read as a
/// killed mutant.
#[derive(Debug, Clone, PartialEq, Eq)]
pub enum TestOutcome {
    Success,
    Failure,
    EngineError(String),
}

/// A test outcome reduced to plain values.
pub enum OutcomeModel {
    Success,
    Failure,
    EngineError(Seq<char>),
}

pub open spec fn outcome_model(o: TestOutcome) -> OutcomeModel {
    match o {
        TestOutcome::Success => OutcomeModel::Success,
        TestOutcome::Failure => OutcomeModel::Failure,
        TestOutcome::EngineError(m) => OutcomeModel::EngineError(m@),
    }
}

/// How one engine invocation behaves towards the outside world.
#[derive(Debug, Clone, Copy, PartialEq, Eq, Structural)]
pub struct RunProfile {
    /// Whether aggregate test statistics are reported.
    pub report_statistics: bool,
    /// Whether the refresh of external dependency sources is skipped.
    pub skip_fetch_latest_deps: bool,
    /// Whether diagnostic output is discarded instead of shown.
    pub silent_output: bool,
}

/// The baseline profile: visible, statistics on, dependencies refreshed.
/// It runs exactly once, before any mutant work.
pub fn baseline_profile() -> (r: RunProfile)
    ensures
        r.report_statistics,
        !r.skip_fetch_latest_deps,
        !r.silent_output,
{
    RunProfile { report_statistics: true, skip_fetch_latest_deps: false, silent_output: false }
}

/// The mutant profile: silent (many runs may interleave), no refresh (the
/// baseline already did it, and concurrent writers must not race on the
/// shared cache), statistics off.
pub fn mutant_profile() -> (r: RunProfile)
    ensures
        !r.report_statistics,
        r.skip_fetch_latest_deps,
        r.silent_output,
{
    RunProfile { report_statistics: false, skip_fetch_latest_deps: true, silent_output: true }
}

/// The package half of the test configuration.
#[derive(Debug)]
pub struct MovePackageConfig {
    /// Dev mode of the build.
    pub dev: bool,
    /// The named-address bindings given on top of the package's own.
    pub named_addresses: Vec<(String, u128)>,
    /// Whether test code is part of the full model generation.
    pub check_test_code: bool,
    /// Where build artifacts are installed.
    pub output_dir: Option<PathSteps>,
}

/// The compiler half of the test configuration.
#[derive(Debug)]
pub struct CompilerConfigModel {
    pub skip_attribute_checks: bool,
    pub known_attributes: Vec<String>,
    pub language_version: Option<String>,
    pub compiler_version: Option<String>,
    pub experiments: Vec<String>,
}

/// The configuration of one differential test session.
#[derive(Debug)]
pub struct TestBuildConfig {
    pub move_pkg: MovePackageConfig,
    pub compiler: CompilerConfigModel,
    /// An optional test-name filter.
    pub filter: Option<String>,
    /// Whether on-chain state is reported on failure.
    pub dump_state: bool,
    pub ignore_compile_warnings: bool,
    /// Whether coverage instrumentation is applied.
    pub apply_coverage: bool,
    /// The step ceiling of every test execution.
    pub gas_limit: u64,
}

pub open spec fn opt_string_view(o: Option<String>) -> Option<Seq<char>> {
    match o {
        Option::Some(s) => Option::Some(s@),
        Option::None => Option::None,
    }
}

pub open spec fn opt_path_view(o: Option<PathSteps>) -> Option<Seq<Seq<char>>> {
    match o {
        Option::Some(p) => Option::Some(p@),
        Option::None => Option::None,
    }
}

/// A test configuration reduced to plain values.
#[verifier::ext_equal]
pub struct TestConfigModel {
    pub dev: bool,
    pub named_addresses: Seq<(Seq<char>, u128)>,
    pub check_test_code: bool,
    pub output_dir: Option<Seq<Seq<char>>>,
    pub skip_attribute_checks: bool,
    pub known_attributes: Seq<Seq<char>>,
    pub language_version: Option<Seq<char>>,
    pub compiler_version: Option<Seq<char>>,
    pub experiments: Seq<Seq<char>>,
    pub filter: Option<Seq<char>>,
    pub dump_state: bool,
    pub ignore_compile_warnings: bool,
    pub apply_coverage: bool,
    pub gas_limit: u64,
}

impl TestBuildConfig {
    pub open spec fn model(&self) -> TestConfigModel {
        TestConfigModel {
            dev: self.move_pkg.dev,
            named_addresses: bindings_view(self.move_pkg.named_addresses@),
            check_test_code: self.move_pkg.check_test_code,
            output_dir: opt_path_view(self.move_pkg.output_dir),
            skip_attribute_checks: self.compiler.skip_attribute_checks,
            known_attributes: self.compiler.known_attributes.deep_view(),
            language_version: opt_string_view(self.compiler.language_version),
            compiler_version: opt_string_view(self.compiler.compiler_version),
            experiments: self.compiler.experiments.deep_view(),
            filter: opt_string_view(self.filter),
            dump_state: self.dump_state,
            ignore_compile_warnings: self.ignore_compile_warnings,
            apply_coverage: self.apply_coverage,
            gas_limit: self.gas_limit,
        }
    }

    /// The same session configuration with coverage instrumentation off:
    /// what every mutant run works from, so that the per-mutant sandboxes
    /// never accumulate instrumentation artifacts.
    pub fn disable_coverage(&self) -> (r: TestBuildConfig)
        ensures
            r.model() == (TestConfigModel { apply_coverage: false, ..self.model() }),
    {
        let r = TestBuildConfig {
            move_pkg: MovePackageConfig {
                dev: self.move_pkg.dev,
                named_addresses: clone_bindings_vec(&self.move_pkg.named_addresses),
                check_test_code: self.move_pkg.check_test_code,
                output_dir: clone_opt_path(&self.move_pkg.output_dir),
            },
            compiler: CompilerConfigModel {
                skip_attribute_checks: self.compiler.skip_attribute_checks,
                known_attributes: clone_string_vec(&self.compiler.known_attributes),
                language_version: clone_opt_string(&self.compiler.language_version),
                compiler_version: clone_opt_string(&self.compiler.compiler_version),
                experiments: clone_string_vec(&self.compiler.experiments),
            },
            filter: clone_opt_string(&self.filter),
            dump_state: self.dump_state,
            ignore_compile_warnings: self.ignore_compile_warnings,
            apply_coverage: false,
            gas_limit: self.gas_limit,
        };
        proof {
            assert(r.model() =~= (TestConfigModel { apply_coverage: false, ..self.model() }));
        }
        r
    }
}

pub(crate) fn clone_bindings_vec(v: &Vec<(String, u128)>) -> (r: Vec<(String, u128)>)
    ensures
        r@ == v@,
{
    let mut out: Vec<(String, u128)> = Vec::new();
    let mut i: usize = 0;
    while i < v.len()
        invariant
            i <= v.len(),
            out@ == v@.take(i as int),
        decreases v.len() - i,
    {
        out.push((v[i].0.clone(), v[i].1));
        proof {
            assert(out@ =~= v@.take((i + 1) as int));
        }
        i = i + 1;
    }
    proof {
        assert(v@.take(v@.len() as int) =~= v@);
    }
    out
}

pub(crate) fn clone_string_vec(v: &Vec<String>) -> (r: Vec<String>)
    ensures
        r@ == v@,
{
    let mut out: Vec<String> = Vec::new();
    let mut i: usize = 0;
    while i < v.len()
        invariant
            i <= v.len(),
            out@ == v@.take(i as int),
        decreases v.len() - i,
    {
        out.push(v[i].clone());
        proof {
            assert(out@ =~= v@.take((i + 1) as int));
        }
        i = i + 1;
    }
    proof {
        assert(v@.take(v@.len() as int) =~= v@);
    }
    out
}

pub(crate) fn clone_opt_string(o: &Option<String>) -> (r: Option<String>)
    ensures
        r == *o,
{
    match o {
        Option::Some(s) => Option::Some(s.clone()),
        Option::None => Option::None,
    }
}

pub(crate) fn clone_opt_path(o: &Option<PathSteps>) -> (r: Option<PathSteps>)
    ensures
        opt_path_view(r) == opt_path_view(*o),
{
    match o {
        Option::Some(p) => Option::Some(p.clone()),
        Option::None => Option::None,
    }
}

/// The full request handed to the unit-test engine for one run.
pub struct UnitTestRequest {
    /// Dev mode of the build configuration.
    pub dev_mode: bool,
    /// Test mode: always on for a test session.
    pub test_mode: bool,
    /// Whether test code takes part in model generation.
    pub full_model_generation: bool,
    /// Whether the dependency refresh is skipped.
    pub skip_fetch_latest_git_deps: bool,
    /// Where build artifacts are installed.
    pub install_dir: Option<PathSteps>,
    /// The merged named-address bindings.
    pub named_addresses: NamedAddressMap,
    /// The optional test-name filter.
    pub filter: Option<String>,
    /// Whether storage state is reported on failure.
    pub report_storage_on_error: bool,
    pub ignore_compile_warnings: bool,
    pub report_statistics: bool,
    /// Every binding as a `name=value` line, in map order.
    pub named_address_values: Vec<String>,
    /// The step ceiling of the run.
    pub budget: ExecutionBudget,
    /// Whether coverage instrumentation is applied.
    pub apply_coverage: bool,
}

/// An engine request reduced to plain values.
#[verifier::ext_equal]
pub struct RequestModel {
    pub dev_mode: bool,
    pub test_mode: bool,
    pub full_model_generation: bool,
    pub skip_fetch_latest_git_deps: bool,
    pub install_dir: Option<Seq<Seq<char>>>,
    pub bindings: Seq<(Seq<char>, u128)>,
    pub filter: Option<Seq<char>>,
    pub report_storage_on_error: bool,
    pub ignore_compile_warnings: bool,
    pub report_statistics: bool,
    pub named_address_values: Seq<Seq<char>>,
    pub budget_steps: u64,
    pub apply_coverage: bool,
}

pub open spec fn request_model(r: UnitTestRequest) -> RequestModel {
    RequestModel {
        dev_mode: r.dev_mode,
        test_mode: r.test_mode,
        full_model_generation: r.full_model_generation,
        skip_fetch_latest_git_deps: r.skip_fetch_latest_git_deps,
        install_dir: opt_path_view(r.install_dir),
        bindings: r.named_addresses.bindings(),
        filter: opt_string_view(r.filter),
        report_storage_on_error: r.report_storage_on_error,
        ignore_compile_warnings: r.ignore_compile_warnings,
        report_statistics: r.report_statistics,
        named_address_values: r.named_address_values.deep_view(),
        budget_steps: r.budget.steps,
        apply_coverage: r.apply_coverage,
    }
}

/// The one request a given configuration and profile can produce.
pub open spec fn spec_request(m: TestConfigModel, p: RunProfile) -> RequestModel {
    RequestModel {
        dev_mode: m.dev,
        test_mode: true,
        full_model_generation: m.check_test_code,
        skip_fetch_latest_git_deps: p.skip_fetch_latest_deps,
        install_dir: m.output_dir,
        bindings: spec_merge_bindings(Seq::empty(), m.named_addresses),
        filter: m.filter,
        report_storage_on_error: m.dump_state,
        ignore_compile_warnings: m.ignore_compile_warnings,
        report_statistics: p.report_statistics,
        named_address_values: spec_sort_bindings(
            spec_merge_bindings(Seq::empty(), m.named_addresses),
        ).map_values(|b: (Seq<char>, u128)| spec_address_entry(b.0, b.1)),
        budget_steps: m.gas_limit,
        apply_coverage: m.apply_coverage,
    }
}

/// Builds the engine request of one run: test mode on, the session's
/// named-address bindings merged and also rendered as `name=value` lines,
/// the profile's refresh and statistics switches applied, and the step
/// ceiling taken from the configuration.
pub fn unit_test_request(cfg: &TestBuildConfig, profile: &RunProfile) -> (r: UnitTestRequest)
    ensures
        request_model(r) == spec_request(cfg.model(), *profile),
{
    let mut bindings = NamedAddressMap::new();
    bindings.merge_from(&cfg.move_pkg.named_addresses);
    let lines = bindings.format_entries();
    let r = UnitTestRequest {
        dev_mode: cfg.move_pkg.dev,
        test_mode: true,
        full_model_generation: cfg.move_pkg.check_test_code,
        skip_fetch_latest_git_deps: profile.skip_fetch_latest_deps,
        install_dir: clone_opt_path(&cfg.move_pkg.output_dir),
        named_addresses: bindings,
        filter: clone_opt_string(&cfg.filter),
        report_storage_on_error: cfg.dump_state,
        ignore_compile_warnings: cfg.ignore_compile_warnings,
        report_statistics: profile.report_statistics,
        named_address_values: lines,
        budget: ExecutionBudget { steps: cfg.gas_limit },
        apply_coverage: cfg.apply_coverage,
    };
    proof {
        assert(request_model(r) =~= spec_request(cfg.model(), *profile));
    }
    r
}

/// The context every engine fault is wrapped with.
pub open spec fn spec_engine_error_prefix() -> Seq<char> {
    "failed to run unit tests: "@
}

/// What a classified outcome must be for a given engine report.
pub open spec fn classification_matches(raw: EngineRawResult, r: TestOutcome) -> bool {
    match raw {
        EngineRawResult::Success => r == TestOutcome::Success,
        EngineRawResult::Failure => r == TestOutcome::Failure,
        EngineRawResult::Fault(m) => match r {
            TestOutcome::EngineError(w) => w@ == spec_engine_error_prefix() + m@,
            _ => false,
        },
    }
}

/// Maps what the engine reports to the session outcome: success and test
/// failure pass through; an engine fault is wrapped with context and kept
/// distinct from a failure, so an infrastructure fault is never read as a
/// killed mutant.
pub fn classify_engine_result(raw: &EngineRawResult) -> (r: TestOutcome)
    ensures
        classification_matches(*raw, r),
{
    match raw {
        EngineRawResult::Success => TestOutcome::Success,
        EngineRawResult::Failure => TestOutcome::Failure,
        EngineRawResult::Fault(m) => {
            let wrapped = "failed to run unit tests: ".to_owned().concat(m.as_str());
            TestOutcome::EngineError(wrapped)
        },
    }
}

/// Only an engine-reported success classifies as `Success`: a run cut off
/// by its budget reports a failure or a fault, so a non-terminating mutant
/// can never be classified as surviving.
pub proof fn lemma_only_success_survives(raw: EngineRawResult, r: TestOutcome)
    requires
        classification_matches(raw, r),
        !(raw is Success),
    ensures
        !(r is Success),
{
}

/// Classification is a function of the engine report alone: two outcomes
/// classified from the same report agree.
pub proof fn lemma_classification_deterministic(
    raw: EngineRawResult,
    r1: TestOutcome,
    r2: TestOutcome,
)
    requires
        classification_matches(raw, r1),
        classification_matches(raw, r2),
    ensures
        outcome_model(r1) == outcome_model(r2),
{
}

/// Two runs of the identical configuration under the identical profile are
/// handed the identical engine request, budget included: every decision of
/// the runner is a function of its inputs alone, which is what makes a
/// repeated mutant run reproducible.
pub proof fn lemma_identical_runs_identical_requests(
    m: TestConfigModel,
    p: RunProfile,
    r1: UnitTestRequest,
    r2: UnitTestRequest,
)
    requires
        request_model(r1) == spec_request(m, p),
        request_model(r2) == spec_request(m, p),
    ensures
        request_model(r1) == request_model(r2),
        r1.budget == r2.budget,
{
    assert(r1.budget.steps == r2.budget.steps);
}

/// The transient execution-trace artifact of a coverage-enabled run.
pub open spec fn spec_trace_step() -> Seq<char> {
    ".trace"@
}

/// The compact coverage-map artifact that is kept.
pub open spec fn spec_coverage_map_step() -> Seq<char> {
    ".coverage_map.mvcov"@
}

/// Names the trace artifact a coverage-enabled run must delete as soon as
/// the run is over; without coverage there is nothing to delete.
pub fn trace_cleanup_path(apply_coverage: bool, package_root: &PathSteps) -> (r: Option<
    PathSteps,
>)
    ensures
        apply_coverage ==> match r {
            Option::Some(p) => p@ == package_root@.push(spec_trace_step()),
            Option::None => false,
        },
        !apply_coverage ==> r is None,
{
    if apply_coverage {
        let mut p = package_root.clone();
        p.push_step(".trace".to_owned());
        Option::Some(p)
    } else {
        Option::None
    }
}

/// Names the coverage-map artifact that stays in the working tree.
pub fn coverage_map_path(package_root: &PathSteps) -> (r: PathSteps)
    ensures
        r@ == package_root@.push(spec_coverage_map_step()),
{
    let mut p = package_root.clone();
    p.push_step(".coverage_map.mvcov".to_owned());
    p
}

/// The trace cleanup never names the coverage map: deleting the one leaves
/// the other in place.
pub proof fn lemma_trace_cleanup_spares_coverage_map(root: Seq<Seq<char>>)
    ensures
        root.push(spec_trace_step()) != root.push(spec_coverage_map_step()),
{
    reveal_strlit(".trace");
    reveal_strlit(".coverage_map.mvcov");
    assert(spec_trace_step().len() != spec_coverage_map_step().len());
    if root.push(spec_trace_step()) == root.push(spec_coverage_map_step()) {
        assert(root.push(spec_trace_step()).last() == root.push(spec_coverage_map_step()).last());
    }
}

/// What a failed baseline reports.
#[derive(Debug, Clone, PartialEq, Eq)]
pub struct BaselineFailure {
    pub message: String,
}

/// The context a baseline failure is wrapped with.
pub open spec fn spec_baseline_failure_prefix() -> Seq<char> {
    "Test suite is failing for the original code! Unit test failed with error: "@
}

/// What a failing test session reports on its own.
pub open spec fn spec_unit_test_error_text() -> Seq<char> {
    "Move unit test error"@
}

/// Decides whether the session may continue: only a baseline success
/// does; a failing or faulting baseline aborts the whole mutation
/// analysis with the cause spelled out.
pub fn baseline_verdict(outcome: &TestOutcome) -> (r: Result<(), BaselineFailure>)
    ensures
        r is Ok <==> outcome is Success,
        match *outcome {
            TestOutcome::Success => r is Ok,
            TestOutcome::Failure => match r {
                Result::Err(b) => b.message@ == spec_baseline_failure_prefix()
                    + spec_unit_test_error_text(),
                _ => false,
            },
            TestOutcome::EngineError(m) => match r {
                Result::Err(b) => b.message@ == spec_baseline_failure_prefix() + m@,
                _ => false,
            },
        },
{
    match outcome {
        TestOutcome::Success => Result::Ok(()),
        TestOutcome::Failure => {
            let message = "Test suite is failing for the original code! Unit test failed with error: ".to_owned().concat("Move unit test error");
            Result::Err(BaselineFailure { message })
        },
        TestOutcome::EngineError(m) => {
            let message = "Test suite is failing for the original code! Unit test failed with error: ".to_owned().concat(m.as_str());
            Result::Err(BaselineFailure { message })
        },
    }
}

} // verus!

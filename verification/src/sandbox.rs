//! The sandbox verifier's decisions.
//!
//! A candidate mutant is checked by compiling it inside a private copy of
//! the whole package tree: the package root is found by walking up from the
//! mutated file to the manifest, the entire root is copied into a fresh
//! temporary directory (a partial copy would break dependencies referenced
//! relative to the root), the one file is overwritten there, and a
//! compile-only configuration is derived with test mode off.  This module
//! computes every path and flag of that plan and proves that the planned
//! write can never land inside the original checkout; the host driver only
//! executes the plan and deletes the copy on every exit path.

use crate::builder::{BuildConfigModel, BuildConfiguration};
use crate::paths::{is_path_prefix, lemma_disjoint_dirs_isolate, PathSteps};
use crate::runner::{clone_bindings_vec, clone_opt_string, clone_opt_path, clone_string_vec, CompilerConfigModel};
use vstd::prelude::*;

verus! {

/// One candidate fault: the file it replaces and the replacement text.
/// Supplied by the external mutation-operator catalog; the pipeline never
/// constructs one.
#[derive(Debug)]
pub struct Mutant {
    /// The original file the mutant stands in for.
    pub original_file: PathSteps,
    /// The full replacement source text.
    pub replacement_text: String,
}

/// The manifest file that marks a package root.
pub open spec fn spec_manifest_file_name() -> Seq<char> {
    "Move.toml"@
}

pub fn manifest_file_name() -> (r: String)
    ensures
        r@ == spec_manifest_file_name(),
{
    "Move.toml".to_owned()
}

/// One step of the upward search for the package root.
#[derive(Debug)]
pub enum RootSearchStep {
    /// The manifest is here: the current directory is the root.
    Found,
    /// No manifest here: continue at the parent directory.
    Ascend(PathSteps),
    /// No manifest here and nothing above: there is no package root.
    NotFound,
}

/// Decides one step of the root search, given whether the manifest lies in
/// the current directory.  The host driver supplies that observation and
/// follows the returned step.
pub fn find_root_step(current: &PathSteps, manifest_here: bool) -> (r: RootSearchStep)
    ensures
        manifest_here ==> r is Found,
        (!manifest_here && current@.len() > 0) ==> match r {
            RootSearchStep::Ascend(p) => p@ == current@.drop_last(),
            _ => false,
        },
        (!manifest_here && current@.len() == 0) ==> r is NotFound,
{
    if manifest_here {
        RootSearchStep::Found
    } else {
        match current.parent() {
            Option::Some(p) => RootSearchStep::Ascend(p),
            Option::None => RootSearchStep::NotFound,
        }
    }
}

/// Why no sandbox plan could be made.
#[derive(Debug, Clone, Copy, PartialEq, Eq, Structural)]
pub enum SandboxPlanError {
    /// The mutated file does not lie under the package root.
    FileOutsidePackageRoot,
}

/// The plan of one sandbox verification: what to copy where, which file to
/// overwrite with the mutant's text, and the compile-only configuration.
#[derive(Debug)]
pub struct SandboxPlan {
    /// The package root whose contents are copied.
    pub copy_from: PathSteps,
    /// The fresh private directory the contents go into.
    pub copy_into: PathSteps,
    /// The file inside the copy that the mutant's text replaces.
    pub write_path: PathSteps,
    /// The text written there.
    pub replacement_text: String,
    /// The derived configuration: the same build, test mode off.
    pub config: BuildConfiguration,
}

/// Plans the sandbox verification of one mutant: the mutated file is
/// relativized against the package root, the whole root is copied into the
/// sandbox directory, the file's counterpart inside the copy is
/// overwritten, and the build configuration is derived with test mode
/// disabled — the check is compile-only.  A file outside the root admits
/// no plan.
pub fn verify_mutant_plan(
    config: &BuildConfiguration,
    mutant: &Mutant,
    package_root: &PathSteps,
    sandbox_dir: &PathSteps,
) -> (r: Result<SandboxPlan, SandboxPlanError>)
    ensures
        r is Ok <==> is_path_prefix(package_root@, mutant.original_file@),
        match r {
            Result::Ok(plan) => plan.copy_from@ == package_root@ && plan.copy_into@ == sandbox_dir@
                && plan.write_path@ == sandbox_dir@ + mutant.original_file@.skip(
                package_root@.len() as int,
            ) && plan.replacement_text@ == mutant.replacement_text@ && plan.config.model() == (
            BuildConfigModel { test_mode: false, ..config.model() }),
            Result::Err(e) => e == SandboxPlanError::FileOutsidePackageRoot,
        },
{
    let relative = match mutant.original_file.strip_prefix(package_root) {
        Option::Some(rel) => rel,
        Option::None => {
            return Result::Err(SandboxPlanError::FileOutsidePackageRoot);
        },
    };
    let write_path = sandbox_dir.join(&relative);
    let working_config = compile_only_config(config);
    Result::Ok(
        SandboxPlan {
            copy_from: package_root.clone(),
            copy_into: sandbox_dir.clone(),
            write_path,
            replacement_text: mutant.replacement_text.clone(),
            config: working_config,
        },
    )
}

/// Derives the compile-only configuration of a sandbox check: the same
/// build configuration with test mode switched off.
pub fn compile_only_config(config: &BuildConfiguration) -> (r: BuildConfiguration)
    ensures
        r.model() == (BuildConfigModel { test_mode: false, ..config.model() }),
{
    let r = BuildConfiguration {
        dev_mode: config.dev_mode,
        test_mode: false,
        full_model_generation: config.full_model_generation,
        skip_fetch_latest_git_deps: config.skip_fetch_latest_git_deps,
        additional_named_addresses: clone_bindings_vec(&config.additional_named_addresses),
        install_dir: clone_opt_path(&config.install_dir),
        compiler: CompilerConfigModel {
            skip_attribute_checks: config.compiler.skip_attribute_checks,
            known_attributes: clone_string_vec(&config.compiler.known_attributes),
            language_version: clone_opt_string(&config.compiler.language_version),
            compiler_version: clone_opt_string(&config.compiler.compiler_version),
            experiments: clone_string_vec(&config.compiler.experiments),
        },
    };
    proof {
        assert(r.model() =~= (BuildConfigModel { test_mode: false, ..config.model() }));
    }
    r
}

/// What the package compiler reports for a sandboxed compile-only build.
#[derive(Debug, Clone, PartialEq, Eq)]
pub enum CompileRawResult {
    /// The mutated package compiles.
    Success,
    /// It does not; the compiler's diagnostic text is carried.
    Failure(String),
}

/// A mutant that fails to compile in its sandbox.  Not fatal to the
/// session: such a mutant is excluded from test execution, reported with
/// the compiler's diagnostic, and never counted as survived.
#[derive(Debug, Clone, PartialEq, Eq)]
pub struct CompileVerifyError {
    pub diagnostic: String,
}

/// Classifies what the sandbox compile reported: a compiling mutant passes
/// on to test execution; a non-compiling one yields a `CompileVerifyError`
/// carrying the compiler's diagnostic text.
pub fn classify_compile_result(raw: &CompileRawResult) -> (r: Result<(), CompileVerifyError>)
    ensures
        r is Ok <==> raw is Success,
        match *raw {
            CompileRawResult::Success => r is Ok,
            CompileRawResult::Failure(d) => match r {
                Result::Err(e) => e.diagnostic@ == d@,
                _ => false,
            },
        },
{
    match raw {
        CompileRawResult::Success => Result::Ok(()),
        CompileRawResult::Failure(d) => Result::Err(
            CompileVerifyError { diagnostic: d.clone() },
        ),
    }
}

/// The isolation guarantee of every sandbox verification: as long as the
/// host hands over a fresh sandbox directory disjoint from the package
/// root — neither lies under the other — every path the plan writes to
/// extends the sandbox directory and therefore never lies under the
/// original package root.  The original checkout stays read-only however
/// many verifications run concurrently, each in its own sandbox.
pub proof fn lemma_sandbox_write_never_in_package(
    package_root: Seq<Seq<char>>,
    sandbox_dir: Seq<Seq<char>>,
    write_path: Seq<Seq<char>>,
)
    requires
        !is_path_prefix(package_root, sandbox_dir),
        !is_path_prefix(sandbox_dir, package_root),
        exists|rel: Seq<Seq<char>>| write_path == sandbox_dir + rel,
    ensures
        !is_path_prefix(package_root, write_path),
{
    let rel = choose|rel: Seq<Seq<char>>| write_path == sandbox_dir + rel;
    lemma_disjoint_dirs_isolate(package_root, sandbox_dir, rel);
}

} // verus!

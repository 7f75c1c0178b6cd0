//! The model builder's decisions.
//!
//! A compiled model comes either from a resolved package (dependency
//! graph, named-address tables, source or pre-compiled artifacts per
//! dependency) or from a raw list of source files.  This module turns the
//! resolved shape of a package into the exact compiler options: which files
//! are compiled as sources, which pre-compiled dependencies are handed over
//! instead (and recorded as not mutatable), which package owns every
//! contributing file, and the one merged named-address table.  The acceptance
//! rule for the model's diagnostics is here too: any error-severity
//! diagnostic fails the build, warnings do not.

use crate::addresses::{
    bindings_view, spec_address_entry, spec_merge_bindings, spec_sort_bindings, NamedAddressMap,
};
use crate::paths::PathSteps;
use crate::runner::{clone_opt_string, clone_string_vec, opt_path_view, opt_string_view, CompilerConfigModel};
use vstd::prelude::*;

verus! {

/// The immutable build configuration of one session.
#[derive(Debug)]
pub struct BuildConfiguration {
    pub dev_mode: bool,
    pub test_mode: bool,
    pub full_model_generation: bool,
    pub skip_fetch_latest_git_deps: bool,
    pub additional_named_addresses: Vec<(String, u128)>,
    pub install_dir: Option<PathSteps>,
    pub compiler: CompilerConfigModel,
}

/// A build configuration reduced to plain values.
#[verifier::ext_equal]
pub struct BuildConfigModel {
    pub dev_mode: bool,
    pub test_mode: bool,
    pub full_model_generation: bool,
    pub skip_fetch_latest_git_deps: bool,
    pub additional_named_addresses: Seq<(Seq<char>, u128)>,
    pub install_dir: Option<Seq<Seq<char>>>,
    pub skip_attribute_checks: bool,
    pub known_attributes: Seq<Seq<char>>,
    pub language_version: Option<Seq<char>>,
    pub compiler_version: Option<Seq<char>>,
    pub experiments: Seq<Seq<char>>,
}

impl BuildConfiguration {
    pub open spec fn model(&self) -> BuildConfigModel {
        BuildConfigModel {
            dev_mode: self.dev_mode,
            test_mode: self.test_mode,
            full_model_generation: self.full_model_generation,
            skip_fetch_latest_git_deps: self.skip_fetch_latest_git_deps,
            additional_named_addresses: bindings_view(self.additional_named_addresses@),
            install_dir: opt_path_view(self.install_dir),
            skip_attribute_checks: self.compiler.skip_attribute_checks,
            known_attributes: self.compiler.known_attributes.deep_view(),
            language_version: opt_string_view(self.compiler.language_version),
            compiler_version: opt_string_view(self.compiler.compiler_version),
            experiments: self.compiler.experiments.deep_view(),
        }
    }
}

/// Severity of one diagnostic the checker reported.
#[derive(Debug, Clone, Copy, PartialEq, Eq, Structural)]
pub enum DiagnosticSeverity {
    Bug,
    Error,
    Warning,
    Note,
    Help,
}

/// Whether a diagnostic of this severity fails the build.
pub open spec fn is_error_severity(s: DiagnosticSeverity) -> bool {
    s == DiagnosticSeverity::Bug || s == DiagnosticSeverity::Error
}

/// One diagnostic of the compiled model.
#[derive(Debug)]
pub struct Diagnostic {
    pub severity: DiagnosticSeverity,
    pub message: String,
}

/// Why a model build failed: error diagnostics in the compiled model, a
/// failure of dependency resolution, or a manifest that could not be read
/// — the latter two carry the resolver's own message.
#[derive(Debug, Clone, PartialEq, Eq)]
pub enum ModelBuildError {
    /// The compiled model carries at least one error-severity diagnostic.
    ErrorDiagnostics,
    /// The dependency graph could not be resolved.
    DependencyResolution(String),
    /// The package manifest is missing or malformed.
    ManifestMalformed(String),
}

/// The message a model with error diagnostics reports.
pub open spec fn spec_model_build_failure_text() -> Seq<char> {
    "AST generation failed"@
}

impl ModelBuildError {
    pub fn message(&self) -> (r: String)
        ensures
            match *self {
                ModelBuildError::ErrorDiagnostics => r@ == spec_model_build_failure_text(),
                ModelBuildError::DependencyResolution(m) => r@ == m@,
                ModelBuildError::ManifestMalformed(m) => r@ == m@,
            },
    {
        match self {
            ModelBuildError::ErrorDiagnostics => "AST generation failed".to_owned(),
            ModelBuildError::DependencyResolution(m) => m.clone(),
            ModelBuildError::ManifestMalformed(m) => m.clone(),
        }
    }
}

/// Accepts a freshly built model exactly when none of its diagnostics is
/// of error severity; warnings and notes pass.
pub fn accept_model(diagnostics: &Vec<Diagnostic>) -> (r: Result<(), ModelBuildError>)
    ensures
        r is Ok <==> (forall|i: int|
            0 <= i < diagnostics@.len() ==> !is_error_severity(diagnostics@[i].severity)),
        r is Err ==> r == Result::<(), ModelBuildError>::Err(ModelBuildError::ErrorDiagnostics),
{
    let mut i: usize = 0;
    while i < diagnostics.len()
        invariant
            i <= diagnostics.len(),
            forall|j: int| 0 <= j < i ==> !is_error_severity(diagnostics@[j].severity),
        decreases diagnostics.len() - i,
    {
        let is_error = match diagnostics[i].severity {
            DiagnosticSeverity::Bug => true,
            DiagnosticSeverity::Error => true,
            _ => false,
        };
        if is_error {
            return Result::Err(ModelBuildError::ErrorDiagnostics);
        }
        i = i + 1;
    }
    Result::Ok(())
}

/// How a model is built: from a resolved package, or from the raw file
/// list alone.
#[derive(Debug, Clone, Copy, PartialEq, Eq, Structural)]
pub enum ModelBuildMode {
    /// Resolve the dependency graph and named addresses from the manifest.
    Package,
    /// Compile only the given files; no dependency or name resolution.
    FileList,
}

/// An explicit source list switches the build to file-list mode; an empty
/// one means the package at hand is built whole.
pub fn model_build_mode(move_sources: &Vec<PathSteps>) -> (r: ModelBuildMode)
    ensures
        r == ModelBuildMode::Package <==> move_sources@.len() == 0,
{
    if move_sources.len() == 0 {
        ModelBuildMode::Package
    } else {
        ModelBuildMode::FileList
    }
}

/// One resolved dependency of the root package, in resolution order.
#[derive(Debug)]
pub struct ResolvedDependency {
    pub name: String,
    /// Its declared source files; preferred when present.
    pub source_paths: Vec<PathSteps>,
    /// Its pre-compiled artifacts; the fallback when no source is present.
    pub bytecode_paths: Vec<PathSteps>,
    /// Its named-address table.
    pub named_addresses: Vec<(String, u128)>,
}

/// The resolved shape of a package: the root and its transitive
/// dependencies in resolution order.
#[derive(Debug)]
pub struct ResolvedGraph {
    pub root_name: String,
    pub root_source_paths: Vec<PathSteps>,
    pub root_named_addresses: Vec<(String, u128)>,
    pub dependencies: Vec<ResolvedDependency>,
}

/// The options handed to the checker.
#[derive(Debug)]
pub struct CompilerOptions {
    /// The files compiled as sources.
    pub sources: Vec<PathSteps>,
    /// The pre-compiled dependencies handed over as-is.
    pub dependencies: Vec<PathSteps>,
    /// Every named-address binding as a `name=value` line.
    pub named_address_mapping: Vec<String>,
    pub skip_attribute_checks: bool,
    pub known_attributes: Vec<String>,
    pub language_version: Option<String>,
    pub compiler_version: Option<String>,
    pub experiments: Vec<String>,
}

/// The whole plan of a package-mode model build.
#[derive(Debug)]
pub struct PackageCompilePlan {
    pub options: CompilerOptions,
    /// Which package owns every contributing file, in insertion order; on
    /// a repeated file the later entry wins, matching the merge rule.
    pub source_package_map: Vec<(PathSteps, String)>,
    /// The dependencies that fell back to pre-compiled artifacts: they can
    /// neither be mutated nor source-inspected.
    pub bytecode_fallback_deps: Vec<String>,
}

/// The paths of a list, each as its components.
pub open spec fn paths_view(v: Seq<PathSteps>) -> Seq<Seq<Seq<char>>> {
    v.map_values(|p: PathSteps| p@)
}

/// The owner pairs of a list, as plain values.
pub open spec fn owner_pairs_view(v: Seq<(PathSteps, String)>) -> Seq<
    (Seq<Seq<char>>, Seq<char>),
> {
    v.map_values(|p: (PathSteps, String)| (p.0@, p.1@))
}

pub open spec fn dep_has_source(d: ResolvedDependency) -> bool {
    d.source_paths@.len() > 0
}

/// The files a dependency contributes: its sources, or its pre-compiled
/// artifacts when it has none.
pub open spec fn dep_effective_paths(d: ResolvedDependency) -> Seq<Seq<Seq<char>>> {
    if dep_has_source(d) {
        paths_view(d.source_paths@)
    } else {
        paths_view(d.bytecode_paths@)
    }
}

/// The source files contributed by source-bearing dependencies, in order.
pub open spec fn spec_source_dep_files(deps: Seq<ResolvedDependency>) -> Seq<Seq<Seq<char>>>
    decreases deps.len(),
{
    if deps.len() == 0 {
        Seq::empty()
    } else {
        (if dep_has_source(deps[0]) {
            paths_view(deps[0].source_paths@)
        } else {
            Seq::empty()
        }) + spec_source_dep_files(deps.skip(1))
    }
}

/// The pre-compiled files contributed by source-less dependencies.
pub open spec fn spec_bytecode_dep_files(deps: Seq<ResolvedDependency>) -> Seq<Seq<Seq<char>>>
    decreases deps.len(),
{
    if deps.len() == 0 {
        Seq::empty()
    } else {
        (if dep_has_source(deps[0]) {
            Seq::empty()
        } else {
            paths_view(deps[0].bytecode_paths@)
        }) + spec_bytecode_dep_files(deps.skip(1))
    }
}

/// The names of the dependencies that fell back to pre-compiled artifacts.
pub open spec fn spec_fallback_names(deps: Seq<ResolvedDependency>) -> Seq<Seq<char>>
    decreases deps.len(),
{
    if deps.len() == 0 {
        Seq::empty()
    } else {
        (if dep_has_source(deps[0]) {
            Seq::empty()
        } else {
            seq![deps[0].name@]
        }) + spec_fallback_names(deps.skip(1))
    }
}

/// Each path of a list paired with its owning package.
pub open spec fn spec_pairs_of(paths: Seq<Seq<Seq<char>>>, owner: Seq<char>) -> Seq<
    (Seq<Seq<char>>, Seq<char>),
> {
    paths.map_values(|p: Seq<Seq<char>>| (p, owner))
}

/// The owner pairs contributed by the dependencies, in order.
pub open spec fn spec_dep_owner_pairs(deps: Seq<ResolvedDependency>) -> Seq<
    (Seq<Seq<char>>, Seq<char>),
>
    decreases deps.len(),
{
    if deps.len() == 0 {
        Seq::empty()
    } else {
        spec_pairs_of(dep_effective_paths(deps[0]), deps[0].name@) + spec_dep_owner_pairs(
            deps.skip(1),
        )
    }
}

/// The named-address tables of the source-bearing dependencies, laid out
/// one after the other in resolution order.
pub open spec fn spec_source_dep_bindings(deps: Seq<ResolvedDependency>) -> Seq<
    (Seq<char>, u128),
>
    decreases deps.len(),
{
    if deps.len() == 0 {
        Seq::empty()
    } else {
        (if dep_has_source(deps[0]) {
            bindings_view(deps[0].named_addresses@)
        } else {
            Seq::empty()
        }) + spec_source_dep_bindings(deps.skip(1))
    }
}

/// The named-address tables of the source-less dependencies, in order.
pub open spec fn spec_bytecode_dep_bindings(deps: Seq<ResolvedDependency>) -> Seq<
    (Seq<char>, u128),
>
    decreases deps.len(),
{
    if deps.len() == 0 {
        Seq::empty()
    } else {
        (if dep_has_source(deps[0]) {
            Seq::empty()
        } else {
            bindings_view(deps[0].named_addresses@)
        }) + spec_bytecode_dep_bindings(deps.skip(1))
    }
}

/// The one merged named-address table of a package build: the tables of
/// the source-bearing dependencies first, then the root package's table,
/// then the tables of the pre-compiled dependencies, each merged in order
/// under the last-wins rule.
pub open spec fn spec_package_bindings(
    deps: Seq<ResolvedDependency>,
    root_table: Seq<(Seq<char>, u128)>,
) -> Seq<(Seq<char>, u128)> {
    spec_merge_bindings(
        Seq::empty(),
        spec_source_dep_bindings(deps) + root_table + spec_bytecode_dep_bindings(deps),
    )
}

/// Merging a concatenation of tables is merging them one after the other.
pub proof fn lemma_merge_append(
    acc: Seq<(Seq<char>, u128)>,
    a: Seq<(Seq<char>, u128)>,
    b: Seq<(Seq<char>, u128)>,
)
    ensures
        spec_merge_bindings(acc, a + b) == spec_merge_bindings(spec_merge_bindings(acc, a), b),
    decreases a.len(),
{
    if a.len() == 0 {
        assert(a + b =~= b);
    } else {
        assert((a + b)[0] == a[0]);
        assert((a + b).skip(1) =~= a.skip(1) + b);
        lemma_merge_append(
            crate::addresses::spec_insert_binding(acc, a[0].0, a[0].1),
            a.skip(1),
            b,
        );
    }
}

proof fn lemma_source_dep_files_push(deps: Seq<ResolvedDependency>, d: ResolvedDependency)
    ensures
        spec_source_dep_files(deps.push(d)) == spec_source_dep_files(deps) + (if dep_has_source(d) {
            paths_view(d.source_paths@)
        } else {
            Seq::<Seq<Seq<char>>>::empty()
        }),
    decreases deps.len(),
{
    if deps.len() == 0 {
        reveal_with_fuel(spec_source_dep_files, 2);
        assert(deps.push(d)[0] == d);
        assert(deps.push(d).skip(1) =~= Seq::<ResolvedDependency>::empty());
        assert(spec_source_dep_files(deps.push(d)) =~= spec_source_dep_files(deps) + (
        if dep_has_source(d) {
            paths_view(d.source_paths@)
        } else {
            Seq::<Seq<Seq<char>>>::empty()
        }));
    } else {
        assert(deps.push(d)[0] == deps[0]);
        assert(deps.push(d).skip(1) =~= deps.skip(1).push(d));
        lemma_source_dep_files_push(deps.skip(1), d);
        assert(spec_source_dep_files(deps.push(d)) =~= spec_source_dep_files(deps) + (
        if dep_has_source(d) {
            paths_view(d.source_paths@)
        } else {
            Seq::<Seq<Seq<char>>>::empty()
        }));
    }
}

proof fn lemma_bytecode_dep_files_push(deps: Seq<ResolvedDependency>, d: ResolvedDependency)
    ensures
        spec_bytecode_dep_files(deps.push(d)) == spec_bytecode_dep_files(deps) + (
        if dep_has_source(d) {
            Seq::<Seq<Seq<char>>>::empty()
        } else {
            paths_view(d.bytecode_paths@)
        }),
    decreases deps.len(),
{
    if deps.len() == 0 {
        reveal_with_fuel(spec_bytecode_dep_files, 2);
        assert(deps.push(d)[0] == d);
        assert(deps.push(d).skip(1) =~= Seq::<ResolvedDependency>::empty());
        assert(spec_bytecode_dep_files(deps.push(d)) =~= spec_bytecode_dep_files(deps) + (
        if dep_has_source(d) {
            Seq::<Seq<Seq<char>>>::empty()
        } else {
            paths_view(d.bytecode_paths@)
        }));
    } else {
        assert(deps.push(d)[0] == deps[0]);
        assert(deps.push(d).skip(1) =~= deps.skip(1).push(d));
        lemma_bytecode_dep_files_push(deps.skip(1), d);
        assert(spec_bytecode_dep_files(deps.push(d)) =~= spec_bytecode_dep_files(deps) + (
        if dep_has_source(d) {
            Seq::<Seq<Seq<char>>>::empty()
        } else {
            paths_view(d.bytecode_paths@)
        }));
    }
}

proof fn lemma_fallback_names_push(deps: Seq<ResolvedDependency>, d: ResolvedDependency)
    ensures
        spec_fallback_names(deps.push(d)) == spec_fallback_names(deps) + (if dep_has_source(d) {
            Seq::<Seq<char>>::empty()
        } else {
            seq![d.name@]
        }),
    decreases deps.len(),
{
    if deps.len() == 0 {
        reveal_with_fuel(spec_fallback_names, 2);
        assert(deps.push(d)[0] == d);
        assert(deps.push(d).skip(1) =~= Seq::<ResolvedDependency>::empty());
        assert(spec_fallback_names(deps.push(d)) =~= spec_fallback_names(deps) + (
        if dep_has_source(d) {
            Seq::<Seq<char>>::empty()
        } else {
            seq![d.name@]
        }));
    } else {
        assert(deps.push(d)[0] == deps[0]);
        assert(deps.push(d).skip(1) =~= deps.skip(1).push(d));
        lemma_fallback_names_push(deps.skip(1), d);
        assert(spec_fallback_names(deps.push(d)) =~= spec_fallback_names(deps) + (
        if dep_has_source(d) {
            Seq::<Seq<char>>::empty()
        } else {
            seq![d.name@]
        }));
    }
}

proof fn lemma_dep_owner_pairs_push(deps: Seq<ResolvedDependency>, d: ResolvedDependency)
    ensures
        spec_dep_owner_pairs(deps.push(d)) == spec_dep_owner_pairs(deps) + spec_pairs_of(
            dep_effective_paths(d),
            d.name@,
        ),
    decreases deps.len(),
{
    if deps.len() == 0 {
        reveal_with_fuel(spec_dep_owner_pairs, 2);
        assert(deps.push(d)[0] == d);
        assert(deps.push(d).skip(1) =~= Seq::<ResolvedDependency>::empty());
        assert(spec_dep_owner_pairs(deps.push(d)) =~= spec_dep_owner_pairs(deps) + spec_pairs_of(
            dep_effective_paths(d),
            d.name@,
        ));
    } else {
        assert(deps.push(d)[0] == deps[0]);
        assert(deps.push(d).skip(1) =~= deps.skip(1).push(d));
        lemma_dep_owner_pairs_push(deps.skip(1), d);
        assert(spec_dep_owner_pairs(deps.push(d)) =~= spec_dep_owner_pairs(deps) + spec_pairs_of(
            dep_effective_paths(d),
            d.name@,
        ));
    }
}

proof fn lemma_source_dep_bindings_push(deps: Seq<ResolvedDependency>, d: ResolvedDependency)
    ensures
        spec_source_dep_bindings(deps.push(d)) == spec_source_dep_bindings(deps) + (
        if dep_has_source(d) {
            bindings_view(d.named_addresses@)
        } else {
            Seq::<(Seq<char>, u128)>::empty()
        }),
    decreases deps.len(),
{
    if deps.len() == 0 {
        reveal_with_fuel(spec_source_dep_bindings, 2);
        assert(deps.push(d)[0] == d);
        assert(deps.push(d).skip(1) =~= Seq::<ResolvedDependency>::empty());
        assert(spec_source_dep_bindings(deps.push(d)) =~= spec_source_dep_bindings(deps) + (
        if dep_has_source(d) {
            bindings_view(d.named_addresses@)
        } else {
            Seq::<(Seq<char>, u128)>::empty()
        }));
    } else {
        assert(deps.push(d)[0] == deps[0]);
        assert(deps.push(d).skip(1) =~= deps.skip(1).push(d));
        lemma_source_dep_bindings_push(deps.skip(1), d);
        assert(spec_source_dep_bindings(deps.push(d)) =~= spec_source_dep_bindings(deps) + (
        if dep_has_source(d) {
            bindings_view(d.named_addresses@)
        } else {
            Seq::<(Seq<char>, u128)>::empty()
        }));
    }
}

proof fn lemma_bytecode_dep_bindings_push(deps: Seq<ResolvedDependency>, d: ResolvedDependency)
    ensures
        spec_bytecode_dep_bindings(deps.push(d)) == spec_bytecode_dep_bindings(deps) + (
        if dep_has_source(d) {
            Seq::<(Seq<char>, u128)>::empty()
        } else {
            bindings_view(d.named_addresses@)
        }),
    decreases deps.len(),
{
    if deps.len() == 0 {
        reveal_with_fuel(spec_bytecode_dep_bindings, 2);
        assert(deps.push(d)[0] == d);
        assert(deps.push(d).skip(1) =~= Seq::<ResolvedDependency>::empty());
        assert(spec_bytecode_dep_bindings(deps.push(d)) =~= spec_bytecode_dep_bindings(deps) + (
        if dep_has_source(d) {
            Seq::<(Seq<char>, u128)>::empty()
        } else {
            bindings_view(d.named_addresses@)
        }));
    } else {
        assert(deps.push(d)[0] == deps[0]);
        assert(deps.push(d).skip(1) =~= deps.skip(1).push(d));
        lemma_bytecode_dep_bindings_push(deps.skip(1), d);
        assert(spec_bytecode_dep_bindings(deps.push(d)) =~= spec_bytecode_dep_bindings(deps) + (
        if dep_has_source(d) {
            Seq::<(Seq<char>, u128)>::empty()
        } else {
            bindings_view(d.named_addresses@)
        }));
    }
}

fn append_paths(dst: &mut Vec<PathSteps>, more: &Vec<PathSteps>)
    ensures
        paths_view(final(dst)@) == paths_view(old(dst)@) + paths_view(more@),
{
    let ghost base = paths_view(old(dst)@);
    let mut i: usize = 0;
    proof {
        assert(paths_view(dst@) =~= base + paths_view(more@.take(0)));
    }
    while i < more.len()
        invariant
            i <= more.len(),
            base == paths_view(old(dst)@),
            paths_view(dst@) == base + paths_view(more@.take(i as int)),
        decreases more.len() - i,
    {
        let ghost pre = paths_view(dst@);
        dst.push(more[i].clone());
        proof {
            assert(paths_view(dst@) =~= pre.push(more@[i as int]@));
            assert(paths_view(dst@) =~= base + paths_view(more@.take((i + 1) as int)));
        }
        i = i + 1;
    }
    proof {
        assert(more@.take(more@.len() as int) =~= more@);
    }
}

fn append_owner_pairs(dst: &mut Vec<(PathSteps, String)>, paths: &Vec<PathSteps>, owner: &String)
    ensures
        owner_pairs_view(final(dst)@) == owner_pairs_view(old(dst)@) + spec_pairs_of(
            paths_view(paths@),
            owner@,
        ),
{
    let ghost base = owner_pairs_view(old(dst)@);
    let ghost goal = spec_pairs_of(paths_view(paths@), owner@);
    let mut i: usize = 0;
    proof {
        assert(owner_pairs_view(dst@) =~= base + goal.take(0));
    }
    while i < paths.len()
        invariant
            i <= paths.len(),
            base == owner_pairs_view(old(dst)@),
            goal == spec_pairs_of(paths_view(paths@), owner@),
            owner_pairs_view(dst@) == base + goal.take(i as int),
        decreases paths.len() - i,
    {
        let ghost pre = owner_pairs_view(dst@);
        dst.push((paths[i].clone(), owner.clone()));
        proof {
            assert(owner_pairs_view(dst@) =~= pre.push((paths@[i as int]@, owner@)));
            assert(goal[i as int] == (paths@[i as int]@, owner@));
            assert(owner_pairs_view(dst@) =~= base + goal.take((i + 1) as int));
        }
        i = i + 1;
    }
    proof {
        assert(goal.take(goal.len() as int) =~= goal);
    }
}

/// Builds the plan of a package-mode model build from the resolved shape
/// of the package: dependency sources first and the root's sources last,
/// the pre-compiled fallback of source-less dependencies recorded by name,
/// an owner for every contributing file, and the merged named-address
/// table rendered for the checker, sorted by name.  `flavor_attributes`
/// are the attributes the toolchain derives from the build flavor and test
/// mode; they extend the configured ones in the options.
pub fn prepare_compiler_for_package(
    config: &BuildConfiguration,
    graph: &ResolvedGraph,
    flavor_attributes: &Vec<String>,
) -> (r: PackageCompilePlan)
    ensures
        paths_view(r.options.sources@) == spec_source_dep_files(graph.dependencies@) + paths_view(
            graph.root_source_paths@,
        ),
        paths_view(r.options.dependencies@) == spec_bytecode_dep_files(graph.dependencies@),
        r.options.named_address_mapping.deep_view() == spec_sort_bindings(
            spec_package_bindings(
                graph.dependencies@,
                bindings_view(graph.root_named_addresses@),
            ),
        ).map_values(|b: (Seq<char>, u128)| spec_address_entry(b.0, b.1)),
        r.options.skip_attribute_checks == config.model().skip_attribute_checks,
        r.options.known_attributes.deep_view() == config.model().known_attributes
            + flavor_attributes.deep_view(),
        opt_string_view(r.options.language_version) == config.model().language_version,
        opt_string_view(r.options.compiler_version) == config.model().compiler_version,
        r.options.experiments.deep_view() == config.model().experiments,
        owner_pairs_view(r.source_package_map@) == spec_dep_owner_pairs(graph.dependencies@)
            + spec_pairs_of(paths_view(graph.root_source_paths@), graph.root_name@),
        r.bytecode_fallback_deps.deep_view() == spec_fallback_names(graph.dependencies@),
{
    let ghost depsg = graph.dependencies@;
    let mut sources: Vec<PathSteps> = Vec::new();
    let mut bytecode_deps: Vec<PathSteps> = Vec::new();
    let mut fallback: Vec<String> = Vec::new();
    let mut owners: Vec<(PathSteps, String)> = Vec::new();
    let mut addr = NamedAddressMap::new();
    proof {
        assert(depsg.take(0) =~= Seq::<ResolvedDependency>::empty());
        assert(paths_view(sources@) =~= spec_source_dep_files(depsg.take(0)));
        assert(paths_view(bytecode_deps@) =~= spec_bytecode_dep_files(depsg.take(0)));
        assert(fallback.deep_view() =~= spec_fallback_names(depsg.take(0)));
        assert(owner_pairs_view(owners@) =~= spec_dep_owner_pairs(depsg.take(0)));
        assert(addr.bindings() =~= spec_merge_bindings(
            Seq::empty(),
            spec_source_dep_bindings(depsg.take(0)),
        ));
    }
    let mut i: usize = 0;
    while i < graph.dependencies.len()
        invariant
            i <= depsg.len(),
            depsg == graph.dependencies@,
            paths_view(sources@) == spec_source_dep_files(depsg.take(i as int)),
            paths_view(bytecode_deps@) == spec_bytecode_dep_files(depsg.take(i as int)),
            fallback.deep_view() == spec_fallback_names(depsg.take(i as int)),
            owner_pairs_view(owners@) == spec_dep_owner_pairs(depsg.take(i as int)),
            addr.bindings() == spec_merge_bindings(
                Seq::empty(),
                spec_source_dep_bindings(depsg.take(i as int)),
            ),
        decreases depsg.len() - i,
    {
        let ghost taken = depsg.take(i as int);
        if graph.dependencies[i].source_paths.len() > 0 {
            append_paths(&mut sources, &graph.dependencies[i].source_paths);
            append_owner_pairs(
                &mut owners,
                &graph.dependencies[i].source_paths,
                &graph.dependencies[i].name,
            );
            addr.merge_from(&graph.dependencies[i].named_addresses);
            proof {
                lemma_merge_append(
                    Seq::empty(),
                    spec_source_dep_bindings(taken),
                    bindings_view(depsg[i as int].named_addresses@),
                );
            }
        } else {
            append_paths(&mut bytecode_deps, &graph.dependencies[i].bytecode_paths);
            append_owner_pairs(
                &mut owners,
                &graph.dependencies[i].bytecode_paths,
                &graph.dependencies[i].name,
            );
            fallback.push(graph.dependencies[i].name.clone());
        }
        proof {
            let d = depsg[i as int];
            assert(depsg.take((i + 1) as int) =~= taken.push(d));
            lemma_source_dep_files_push(taken, d);
            lemma_bytecode_dep_files_push(taken, d);
            lemma_fallback_names_push(taken, d);
            lemma_dep_owner_pairs_push(taken, d);
            lemma_source_dep_bindings_push(taken, d);
            if dep_has_source(d) {
                assert(dep_effective_paths(d) == paths_view(d.source_paths@));
                assert(paths_view(bytecode_deps@) =~= spec_bytecode_dep_files(
                    depsg.take((i + 1) as int),
                ));
                assert(fallback.deep_view() =~= spec_fallback_names(depsg.take((i + 1) as int)));
            } else {
                assert(dep_effective_paths(d) == paths_view(d.bytecode_paths@));
                assert(paths_view(sources@) =~= spec_source_dep_files(depsg.take((i + 1) as int)));
                assert(fallback.deep_view() =~= spec_fallback_names(depsg.take((i + 1) as int)));
                assert(spec_source_dep_bindings(depsg.take((i + 1) as int))
                    =~= spec_source_dep_bindings(taken));
            }
        }
        i = i + 1;
    }
    proof {
        assert(depsg.take(depsg.len() as int) =~= depsg);
    }
    let ghost source_bindings = spec_source_dep_bindings(depsg);
    let ghost root_bindings = bindings_view(graph.root_named_addresses@);
    append_paths(&mut sources, &graph.root_source_paths);
    append_owner_pairs(&mut owners, &graph.root_source_paths, &graph.root_name);
    addr.merge_from(&graph.root_named_addresses);
    proof {
        lemma_merge_append(Seq::empty(), source_bindings, root_bindings);
    }
    let mut k: usize = 0;
    proof {
        assert(depsg.take(0) =~= Seq::<ResolvedDependency>::empty());
        assert(spec_bytecode_dep_bindings(depsg.take(0)) =~= Seq::<(Seq<char>, u128)>::empty());
        assert((source_bindings + root_bindings) + spec_bytecode_dep_bindings(depsg.take(0))
            =~= source_bindings + root_bindings);
    }
    while k < graph.dependencies.len()
        invariant
            k <= depsg.len(),
            depsg == graph.dependencies@,
            source_bindings == spec_source_dep_bindings(depsg),
            root_bindings == bindings_view(graph.root_named_addresses@),
            addr.bindings() == spec_merge_bindings(
                Seq::empty(),
                (source_bindings + root_bindings) + spec_bytecode_dep_bindings(
                    depsg.take(k as int),
                ),
            ),
        decreases depsg.len() - k,
    {
        let ghost taken = depsg.take(k as int);
        if graph.dependencies[k].source_paths.len() == 0 {
            addr.merge_from(&graph.dependencies[k].named_addresses);
            proof {
                lemma_merge_append(
                    Seq::empty(),
                    (source_bindings + root_bindings) + spec_bytecode_dep_bindings(taken),
                    bindings_view(depsg[k as int].named_addresses@),
                );
            }
        }
        proof {
            let d = depsg[k as int];
            assert(depsg.take((k + 1) as int) =~= taken.push(d));
            lemma_bytecode_dep_bindings_push(taken, d);
            if dep_has_source(d) {
                assert(spec_bytecode_dep_bindings(depsg.take((k + 1) as int))
                    =~= spec_bytecode_dep_bindings(taken));
            } else {
                assert(((source_bindings + root_bindings) + spec_bytecode_dep_bindings(taken))
                    + bindings_view(d.named_addresses@) =~= (source_bindings + root_bindings)
                    + spec_bytecode_dep_bindings(depsg.take((k + 1) as int)));
            }
        }
        k = k + 1;
    }
    proof {
        assert(depsg.take(depsg.len() as int) =~= depsg);
    }
    let lines = addr.format_entries();
    let options = CompilerOptions {
        sources,
        dependencies: bytecode_deps,
        named_address_mapping: lines,
        skip_attribute_checks: config.compiler.skip_attribute_checks,
        known_attributes: concat_string_vecs(
            &config.compiler.known_attributes,
            flavor_attributes,
        ),
        language_version: clone_opt_string(&config.compiler.language_version),
        compiler_version: clone_opt_string(&config.compiler.compiler_version),
        experiments: clone_string_vec(&config.compiler.experiments),
    };
    PackageCompilePlan { options, source_package_map: owners, bytecode_fallback_deps: fallback }
}

/// Builds the checker options of a file-list build: exactly the given
/// files, no dependencies, and only the named addresses the configuration
/// already carries.  The mode trades completeness for speed: no manifest
/// is read and no name is resolved.
pub fn prepare_compiler_for_files(config: &BuildConfiguration, source_files: &Vec<PathSteps>) -> (r:
    CompilerOptions)
    ensures
        paths_view(r.sources@) == paths_view(source_files@),
        r.dependencies@.len() == 0,
        r.named_address_mapping.deep_view() == spec_sort_bindings(
            spec_merge_bindings(Seq::empty(), config.model().additional_named_addresses),
        ).map_values(|b: (Seq<char>, u128)| spec_address_entry(b.0, b.1)),
        r.skip_attribute_checks == config.model().skip_attribute_checks,
        r.known_attributes.deep_view() == config.model().known_attributes,
        opt_string_view(r.language_version) == config.model().language_version,
        opt_string_view(r.compiler_version) == config.model().compiler_version,
        r.experiments.deep_view() == config.model().experiments,
{
    let mut sources: Vec<PathSteps> = Vec::new();
    append_paths(&mut sources, source_files);
    proof {
        assert(paths_view(sources@) =~= paths_view(source_files@));
    }
    let mut addr = NamedAddressMap::new();
    addr.merge_from(&config.additional_named_addresses);
    let lines = addr.format_entries();
    CompilerOptions {
        sources,
        dependencies: Vec::new(),
        named_address_mapping: lines,
        skip_attribute_checks: config.compiler.skip_attribute_checks,
        known_attributes: clone_string_vec(&config.compiler.known_attributes),
        language_version: clone_opt_string(&config.compiler.language_version),
        compiler_version: clone_opt_string(&config.compiler.compiler_version),
        experiments: clone_string_vec(&config.compiler.experiments),
    }
}

fn concat_string_vecs(a: &Vec<String>, b: &Vec<String>) -> (r: Vec<String>)
    ensures
        r@ == a@ + b@,
{
    let mut out = clone_string_vec(a);
    let mut i: usize = 0;
    while i < b.len()
        invariant
            i <= b.len(),
            out@ == a@ + b@.take(i as int),
        decreases b.len() - i,
    {
        out.push(b[i].clone());
        proof {
            assert(out@ =~= a@ + b@.take((i + 1) as int));
        }
        i = i + 1;
    }
    proof {
        assert(b@.take(b@.len() as int) =~= b@);
    }
    out
}

/// The package that owns a file, under the map's later-entry-wins rule.
pub open spec fn spec_owner_lookup(
    pairs: Seq<(Seq<Seq<char>>, Seq<char>)>,
    path: Seq<Seq<char>>,
) -> Option<Seq<char>>
    decreases pairs.len(),
{
    if pairs.len() == 0 {
        Option::None
    } else if pairs.last().0 == path {
        Option::Some(pairs.last().1)
    } else {
        spec_owner_lookup(pairs.drop_last(), path)
    }
}

/// Looks up the package that owns a contributing file.  A file recorded
/// twice belongs to the package recorded later, the same precedence the
/// named-address merge uses.
pub fn owner_of(map: &Vec<(PathSteps, String)>, path: &PathSteps) -> (r: Option<String>)
    ensures
        opt_string_view(r) == spec_owner_lookup(owner_pairs_view(map@), path@),
{
    let ghost pairs = owner_pairs_view(map@);
    let mut i: usize = map.len();
    proof {
        assert(pairs.take(pairs.len() as int) =~= pairs);
    }
    while i > 0
        invariant
            i <= map@.len(),
            pairs == owner_pairs_view(map@),
            spec_owner_lookup(pairs.take(i as int), path@) == spec_owner_lookup(pairs, path@),
        decreases i,
    {
        i = i - 1;
        proof {
            assert(pairs.take((i + 1) as int).last() == pairs[i as int]);
            assert(pairs.take((i + 1) as int).drop_last() =~= pairs.take(i as int));
        }
        if map[i].0.path_eq(path) {
            return Option::Some(map[i].1.clone());
        }
    }
    proof {
        assert(pairs.take(0) =~= Seq::<(Seq<Seq<char>>, Seq<char>)>::empty());
    }
    Option::None
}

} // verus!

use move_mutation_test::builder::{
    accept_model, model_build_mode, owner_of, prepare_compiler_for_files,
    prepare_compiler_for_package, BuildConfiguration, Diagnostic, DiagnosticSeverity,
    ModelBuildError, ModelBuildMode, ResolvedDependency, ResolvedGraph,
};
use move_mutation_test::paths::PathSteps;
use move_mutation_test::runner::CompilerConfigModel;

fn path_of(steps: &[&str]) -> PathSteps {
    PathSteps::from_steps(steps.iter().map(|s| s.to_string()).collect())
}

fn plain_config() -> BuildConfiguration {
    BuildConfiguration {
        dev_mode: false,
        test_mode: true,
        full_model_generation: false,
        skip_fetch_latest_git_deps: true,
        additional_named_addresses: vec![("std".to_string(), 1)],
        install_dir: None,
        compiler: CompilerConfigModel {
            skip_attribute_checks: false,
            known_attributes: vec!["test".to_string()],
            language_version: Some("2".to_string()),
            compiler_version: None,
            experiments: vec![],
        },
    }
}

#[test]
fn build_mode_follows_source_list() {
    assert_eq!(model_build_mode(&vec![]), ModelBuildMode::Package);
    assert_eq!(
        model_build_mode(&vec![path_of(&["m.move"])]),
        ModelBuildMode::FileList
    );
}

#[test]
fn accept_model_passes_warnings_only() {
    let diags = vec![
        Diagnostic { severity: DiagnosticSeverity::Warning, message: "w".to_string() },
        Diagnostic { severity: DiagnosticSeverity::Note, message: "n".to_string() },
        Diagnostic { severity: DiagnosticSeverity::Help, message: "h".to_string() },
    ];
    assert!(accept_model(&diags).is_ok());
    assert!(accept_model(&vec![]).is_ok());
}

#[test]
fn accept_model_fails_on_error_severity() {
    let diags = vec![
        Diagnostic { severity: DiagnosticSeverity::Warning, message: "w".to_string() },
        Diagnostic { severity: DiagnosticSeverity::Error, message: "e".to_string() },
    ];
    let err = accept_model(&diags).expect_err("error diagnostics fail the build");
    assert_eq!(err, ModelBuildError::ErrorDiagnostics);
    assert_eq!(err.message(), "AST generation failed");

    let bug = vec![Diagnostic { severity: DiagnosticSeverity::Bug, message: "b".to_string() }];
    assert!(accept_model(&bug).is_err());
}

#[test]
fn file_list_options_take_only_the_given_files() {
    let config = plain_config();
    let files = vec![path_of(&["a.move"]), path_of(&["sub", "b.move"])];
    let options = prepare_compiler_for_files(&config, &files);
    assert_eq!(options.sources.len(), 2);
    assert_eq!(options.sources[0].steps, vec!["a.move".to_string()]);
    assert_eq!(
        options.sources[1].steps,
        vec!["sub".to_string(), "b.move".to_string()]
    );
    assert!(options.dependencies.is_empty());
    assert_eq!(options.named_address_mapping, vec!["std=1".to_string()]);
    assert_eq!(options.known_attributes, vec!["test".to_string()]);
    assert_eq!(options.language_version, Some("2".to_string()));
    assert_eq!(options.compiler_version, None);
}

fn sample_graph() -> ResolvedGraph {
    ResolvedGraph {
        root_name: "root".to_string(),
        root_source_paths: vec![path_of(&["sources", "main.move"])],
        root_named_addresses: vec![("shared".to_string(), 2), ("rootaddr".to_string(), 7)],
        dependencies: vec![
            ResolvedDependency {
                name: "depsrc".to_string(),
                source_paths: vec![path_of(&["deps", "src", "lib.move"])],
                bytecode_paths: vec![],
                named_addresses: vec![("shared".to_string(), 1), ("deponly".to_string(), 4)],
            },
            ResolvedDependency {
                name: "depbin".to_string(),
                source_paths: vec![],
                bytecode_paths: vec![path_of(&["deps", "bin", "lib.mv"])],
                named_addresses: vec![("shared".to_string(), 3)],
            },
        ],
    }
}

#[test]
fn package_plan_orders_sources_and_records_fallback() {
    let plan = prepare_compiler_for_package(&plain_config(), &sample_graph(), &vec![]);
    assert_eq!(plan.options.sources.len(), 2);
    assert_eq!(
        plan.options.sources[0].steps,
        vec!["deps".to_string(), "src".to_string(), "lib.move".to_string()]
    );
    assert_eq!(
        plan.options.sources[1].steps,
        vec!["sources".to_string(), "main.move".to_string()]
    );
    assert_eq!(plan.options.dependencies.len(), 1);
    assert_eq!(
        plan.options.dependencies[0].steps,
        vec!["deps".to_string(), "bin".to_string(), "lib.mv".to_string()]
    );
    assert_eq!(plan.bytecode_fallback_deps, vec!["depbin".to_string()]);
}

#[test]
fn package_plan_merges_addresses_with_late_tables_winning() {
    let plan = prepare_compiler_for_package(&plain_config(), &sample_graph(), &vec![]);
    // Merge order: source-bearing deps, then the root, then bytecode deps;
    // on the shared name the bytecode dependency's table is merged last.
    // The rendered lines come sorted by name.
    assert_eq!(
        plan.options.named_address_mapping,
        vec![
            "deponly=4".to_string(),
            "rootaddr=7".to_string(),
            "shared=3".to_string(),
        ]
    );
}

#[test]
fn package_plan_owns_every_contributing_file() {
    let plan = prepare_compiler_for_package(&plain_config(), &sample_graph(), &vec![]);
    assert_eq!(plan.source_package_map.len(), 3);
    assert_eq!(
        owner_of(&plan.source_package_map, &path_of(&["deps", "src", "lib.move"])),
        Some("depsrc".to_string())
    );
    assert_eq!(
        owner_of(&plan.source_package_map, &path_of(&["deps", "bin", "lib.mv"])),
        Some("depbin".to_string())
    );
    assert_eq!(
        owner_of(&plan.source_package_map, &path_of(&["sources", "main.move"])),
        Some("root".to_string())
    );
    assert_eq!(
        owner_of(&plan.source_package_map, &path_of(&["elsewhere.move"])),
        None
    );
}

#[test]
fn package_plan_extends_known_attributes_with_flavor() {
    let flavor = vec!["native".to_string(), "legacy_entry".to_string()];
    let plan = prepare_compiler_for_package(&plain_config(), &sample_graph(), &flavor);
    assert_eq!(
        plan.options.known_attributes,
        vec![
            "test".to_string(),
            "native".to_string(),
            "legacy_entry".to_string(),
        ]
    );
}

#[test]
fn model_build_error_messages() {
    assert_eq!(ModelBuildError::ErrorDiagnostics.message(), "AST generation failed");
    assert_eq!(
        ModelBuildError::DependencyResolution("no such dependency: foo".to_string()).message(),
        "no such dependency: foo"
    );
    assert_eq!(
        ModelBuildError::ManifestMalformed("bad manifest".to_string()).message(),
        "bad manifest"
    );
}

#[test]
fn owner_lookup_late_entry_wins() {
    let map = vec![
        (path_of(&["f.move"]), "first".to_string()),
        (path_of(&["f.move"]), "second".to_string()),
    ];
    assert_eq!(owner_of(&map, &path_of(&["f.move"])), Some("second".to_string()));
}

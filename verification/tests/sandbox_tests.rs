use move_mutation_test::builder::BuildConfiguration;
use move_mutation_test::paths::PathSteps;
use move_mutation_test::runner::CompilerConfigModel;
use move_mutation_test::sandbox::{
    classify_compile_result, compile_only_config, find_root_step, manifest_file_name,
    verify_mutant_plan, CompileRawResult, CompileVerifyError, Mutant, RootSearchStep,
    SandboxPlanError,
};

fn path_of(steps: &[&str]) -> PathSteps {
    PathSteps::from_steps(steps.iter().map(|s| s.to_string()).collect())
}

fn plain_config() -> BuildConfiguration {
    BuildConfiguration {
        dev_mode: true,
        test_mode: true,
        full_model_generation: true,
        skip_fetch_latest_git_deps: false,
        additional_named_addresses: vec![("std".to_string(), 1)],
        install_dir: Some(path_of(&["build"])),
        compiler: CompilerConfigModel {
            skip_attribute_checks: true,
            known_attributes: vec!["test".to_string()],
            language_version: None,
            compiler_version: Some("2".to_string()),
            experiments: vec!["exp".to_string()],
        },
    }
}

#[test]
fn manifest_marker_name() {
    assert_eq!(manifest_file_name(), "Move.toml");
}

#[test]
fn root_search_stops_at_manifest() {
    let step = find_root_step(&path_of(&["home", "pkg", "sources"]), true);
    assert!(matches!(step, RootSearchStep::Found));
}

#[test]
fn root_search_ascends_without_manifest() {
    match find_root_step(&path_of(&["home", "pkg", "sources"]), false) {
        RootSearchStep::Ascend(parent) => {
            assert_eq!(parent.steps, vec!["home".to_string(), "pkg".to_string()]);
        }
        other => panic!("expected an ascend step, got {:?}", other),
    }
}

#[test]
fn root_search_gives_up_at_the_anchor() {
    let step = find_root_step(&PathSteps::from_steps(vec![]), false);
    assert!(matches!(step, RootSearchStep::NotFound));
}

#[test]
fn plan_copies_root_and_writes_inside_sandbox() {
    let config = plain_config();
    let mutant = Mutant {
        original_file: path_of(&["home", "pkg", "sources", "m.move"]),
        replacement_text: "module m {}".to_string(),
    };
    let root = path_of(&["home", "pkg"]);
    let sandbox = path_of(&["tmp", "sb1"]);
    let plan = verify_mutant_plan(&config, &mutant, &root, &sandbox).expect("file under root");
    assert_eq!(plan.copy_from.steps, vec!["home".to_string(), "pkg".to_string()]);
    assert_eq!(plan.copy_into.steps, vec!["tmp".to_string(), "sb1".to_string()]);
    assert_eq!(
        plan.write_path.steps,
        vec![
            "tmp".to_string(),
            "sb1".to_string(),
            "sources".to_string(),
            "m.move".to_string(),
        ]
    );
    assert_eq!(plan.replacement_text, "module m {}");
    assert!(!plan.config.test_mode);
    assert_eq!(plan.config.dev_mode, config.dev_mode);
    assert_eq!(
        plan.config.additional_named_addresses,
        config.additional_named_addresses
    );
}

#[test]
fn plan_refuses_file_outside_root() {
    let config = plain_config();
    let mutant = Mutant {
        original_file: path_of(&["elsewhere", "m.move"]),
        replacement_text: "x".to_string(),
    };
    let err = verify_mutant_plan(&config, &mutant, &path_of(&["home", "pkg"]), &path_of(&["tmp"]))
        .expect_err("file not under root");
    assert_eq!(err, SandboxPlanError::FileOutsidePackageRoot);
}

#[test]
fn compile_only_config_turns_test_mode_off_and_keeps_the_rest() {
    let config = plain_config();
    let working = compile_only_config(&config);
    assert!(!working.test_mode);
    assert_eq!(working.dev_mode, config.dev_mode);
    assert_eq!(working.full_model_generation, config.full_model_generation);
    assert_eq!(
        working.skip_fetch_latest_git_deps,
        config.skip_fetch_latest_git_deps
    );
    assert_eq!(
        working.additional_named_addresses,
        config.additional_named_addresses
    );
    assert_eq!(working.compiler.known_attributes, config.compiler.known_attributes);
    assert_eq!(working.compiler.compiler_version, config.compiler.compiler_version);
}

#[test]
fn path_relativization() {
    let root = path_of(&["a", "b"]);
    let file = path_of(&["a", "b", "c", "d.move"]);
    assert!(file.starts_with(&root));
    let rel = file.strip_prefix(&root).expect("under root");
    assert_eq!(rel.steps, vec!["c".to_string(), "d.move".to_string()]);
    assert!(root.strip_prefix(&file).is_none());
    let joined = root.join(&rel);
    assert!(joined.path_eq(&file));
    let parent = file.parent().expect("not the anchor");
    assert_eq!(
        parent.steps,
        vec!["a".to_string(), "b".to_string(), "c".to_string()]
    );
}

#[test]
fn compile_classification_is_exact() {
    assert!(classify_compile_result(&CompileRawResult::Success).is_ok());
    let err = classify_compile_result(&CompileRawResult::Failure("type error".to_string()))
        .expect_err("a non-compiling mutant is rejected");
    assert_eq!(err, CompileVerifyError { diagnostic: "type error".to_string() });
}

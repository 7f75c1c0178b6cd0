use move_mutation_test::cli::{
    split_filter_names, str_eq_chars, CLIOptions, CliError, FunctionFilter, ModuleFilter,
    PackagePathCheck,
};
use move_mutation_test::paths::PathSteps;

fn path_of(steps: &[&str]) -> PathSteps {
    PathSteps::from_steps(steps.iter().map(|s| s.to_string()).collect())
}

#[test]
fn default_options_are_the_documented_ones() {
    let opts = CLIOptions::default();
    assert!(opts.move_sources.is_empty());
    assert_eq!(opts.mutate_modules, ModuleFilter::All);
    assert_eq!(opts.mutate_functions, FunctionFilter::All);
    let out = opts.out_mutant_dir.expect("default output dir is set");
    assert_eq!(out.steps, vec!["mutants_output".to_string()]);
    assert!(!opts.verify_mutants);
    assert!(!opts.no_overwrite);
    assert!(!opts.apply_coverage);
    assert!(opts.downsample_filter.is_none());
    assert!(opts.downsampling_ratio_percentage.is_none());
    assert!(opts.configuration_file.is_none());
}

#[test]
fn resolve_returns_given_package_path() {
    let opts = CLIOptions::default();
    let resolved = opts.resolve(Some(path_of(&["work", "pkg"]))).expect("no conflict");
    assert_eq!(resolved.steps, vec!["work".to_string(), "pkg".to_string()]);
}

#[test]
fn resolve_falls_back_to_current_directory() {
    let opts = CLIOptions::default();
    let resolved = opts.resolve(None).expect("no conflict");
    assert_eq!(resolved.steps, vec![".".to_string()]);
}

#[test]
fn resolve_rejects_package_path_beside_move_sources() {
    let mut opts = CLIOptions::default();
    opts.move_sources = vec![path_of(&["src", "a.move"])];
    let err = opts.resolve(Some(path_of(&["pkg"]))).expect_err("conflict expected");
    assert_eq!(err, CliError::ConflictingPathArguments);
    assert_eq!(
        err.message(),
        "the '--move-sources <MOVE_SOURCES>' is not compatible with the '--package_path <PACKAGE_PATH>' argument"
    );
}

#[test]
fn resolve_without_package_path_ignores_move_sources() {
    let mut opts = CLIOptions::default();
    opts.move_sources = vec![path_of(&["src", "a.move"])];
    let resolved = opts.resolve(None).expect("no conflict without a package path");
    assert_eq!(resolved.steps, vec![".".to_string()]);
}

#[test]
fn module_filter_all_word() {
    assert_eq!(ModuleFilter::parse("all"), ModuleFilter::All);
    let parsed: ModuleFilter = "all".parse().unwrap();
    assert_eq!(parsed, ModuleFilter::All);
}

#[test]
fn module_filter_selected_names() {
    let parsed: ModuleFilter = "alpha;beta-gamma,delta".parse().unwrap();
    assert_eq!(
        parsed,
        ModuleFilter::Selected(vec![
            "alpha".to_string(),
            "beta".to_string(),
            "gamma".to_string(),
            "delta".to_string(),
        ])
    );
}

#[test]
fn module_filter_single_name() {
    assert_eq!(
        ModuleFilter::parse("coin"),
        ModuleFilter::Selected(vec!["coin".to_string()])
    );
}

#[test]
fn function_filter_parses_like_module_filter() {
    assert_eq!(FunctionFilter::parse("all"), FunctionFilter::All);
    assert_eq!(
        FunctionFilter::parse("mint,burn"),
        FunctionFilter::Selected(vec!["mint".to_string(), "burn".to_string()])
    );
    let parsed: FunctionFilter = "transfer".parse().unwrap();
    assert_eq!(parsed, FunctionFilter::Selected(vec!["transfer".to_string()]));
}

#[test]
fn split_keeps_empty_pieces() {
    assert_eq!(split_filter_names(""), vec!["".to_string()]);
    assert_eq!(
        split_filter_names("a;;b"),
        vec!["a".to_string(), "".to_string(), "b".to_string()]
    );
    assert_eq!(
        split_filter_names("x,y"),
        vec!["x".to_string(), "y".to_string()]
    );
    assert_eq!(
        split_filter_names(",-"),
        vec!["".to_string(), "".to_string(), "".to_string()]
    );
}

#[test]
fn str_eq_chars_compares_exactly() {
    assert!(str_eq_chars("abc", "abc"));
    assert!(!str_eq_chars("abc", "abd"));
    assert!(!str_eq_chars("abc", "abcd"));
    assert!(str_eq_chars("", ""));
}

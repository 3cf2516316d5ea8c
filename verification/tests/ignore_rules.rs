use village_cli::ignore::{
    default_ignore_patterns, resolve, split_lines, Decision, IgnoreRuleSet,
};
use village_cli::DeployError;

fn strings(v: &[&str]) -> Vec<String> {
    v.iter().map(|s| s.to_string()).collect()
}

#[test]
fn negate_overrides_exclude() {
    let rules = IgnoreRuleSet::from_patterns(&strings(&["*.log", "!keep.log"])).unwrap();
    assert_eq!(rules.decide("keep.log"), Decision::Included);
    assert_eq!(rules.decide("other.log"), Decision::Excluded);
}

#[test]
fn node_modules_excluded_by_default() {
    let rules = resolve(&strings(&[])).unwrap();
    assert_eq!(rules.decide("node_modules"), Decision::Excluded);
    assert_eq!(rules.decide("src_dir"), Decision::Included);
}

#[test]
fn matching_is_against_the_full_path_string() {
    // A bare pattern names one exact path, not every directory of that name.
    let rules = resolve(&strings(&[])).unwrap();
    assert_eq!(rules.decide("/proj/node_modules"), Decision::Included);
    // A wildcard crosses separators, so suffix patterns reach any depth.
    let rules = IgnoreRuleSet::from_patterns(&strings(&["*.log"])).unwrap();
    assert_eq!(rules.decide("/proj/deep/x.log"), Decision::Excluded);
}

#[test]
fn invalid_pattern_fails_resolution() {
    let r = IgnoreRuleSet::from_patterns(&strings(&["["]));
    assert!(matches!(r, Err(DeployError::IgnoreFileError)));
    let r = resolve(&strings(&["ok", "["]));
    assert!(matches!(r, Err(DeployError::IgnoreFileError)));
}

#[test]
fn user_lines_partition_into_excludes_and_negates() {
    let rules = resolve(&strings(&["build-out", "!keep"])).unwrap();
    let defaults = default_ignore_patterns();
    let ex = rules.exclude_patterns();
    assert_eq!(ex.len(), defaults.len() + 1);
    assert_eq!(ex[..defaults.len()], defaults[..]);
    assert_eq!(ex[defaults.len()], "build-out");
    assert_eq!(rules.negate_patterns(), &vec!["keep".to_string()]);
}

#[test]
fn default_list_contents() {
    let defaults = default_ignore_patterns();
    assert_eq!(
        defaults,
        strings(&[
            ".git",
            ".gitmodules",
            ".vscode",
            ".next",
            ".npm",
            ".venv",
            ".yarn",
            "__pycache__",
            "bin",
            "dist",
            "node_modules",
            "yarn-error.log",
            ".DS_Store",
        ])
    );
}

#[test]
fn split_lines_at_newlines() {
    assert_eq!(split_lines("a\nb\nc"), strings(&["a", "b", "c"]));
    assert_eq!(split_lines("a\nb\n"), strings(&["a", "b", ""]));
    assert_eq!(split_lines(""), strings(&[""]));
    assert_eq!(split_lines("\n"), strings(&["", ""]));
}

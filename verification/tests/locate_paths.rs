use village_cli::locate::locate_project_base;
use village_cli::paths::{ancestors_of, join_under, parent_dir, relative_to};
use village_cli::DeployError;

fn strings(v: &[&str]) -> Vec<String> {
    v.iter().map(|s| s.to_string()).collect()
}

#[test]
fn parents_walk_toward_the_root() {
    assert_eq!(parent_dir("/a/b/c"), Some("/a/b".to_string()));
    assert_eq!(parent_dir("/a"), Some("/".to_string()));
    assert_eq!(parent_dir("/"), None);
}

#[test]
fn ancestor_chain_ends_at_the_root() {
    assert_eq!(ancestors_of("/a/b/c"), strings(&["/a/b/c", "/a/b", "/a", "/"]));
    assert_eq!(ancestors_of("/"), strings(&["/"]));
}

#[test]
fn config_two_levels_up_is_found() {
    let ancestors = strings(&["/r/x/y", "/r/x", "/r", "/"]);
    let has_config = vec![false, false, true, false];
    let base = locate_project_base(&ancestors, &has_config).unwrap();
    assert_eq!(base, "/r");
}

#[test]
fn nearest_config_wins() {
    let ancestors = strings(&["/r/x", "/r", "/"]);
    let has_config = vec![true, true, false];
    assert_eq!(locate_project_base(&ancestors, &has_config).unwrap(), "/r/x");
}

#[test]
fn no_config_anywhere_is_config_not_found() {
    let ancestors = strings(&["/r/x/y", "/r/x", "/r", "/"]);
    let has_config = vec![false, false, false, false];
    let r = locate_project_base(&ancestors, &has_config);
    assert!(matches!(r, Err(DeployError::ConfigNotFound)));
}

#[test]
fn joining_under_a_directory() {
    assert_eq!(join_under("/p", "village.yaml"), "/p/village.yaml");
    assert_eq!(join_under("/", "village.yaml"), "/village.yaml");
    assert_eq!(relative_to("/p", &join_under("/p", "a.txt")), Some("a.txt".to_string()));
}

#[test]
fn relative_paths_never_escape_the_base() {
    assert_eq!(relative_to("/p", "/p/a/b"), Some("a/b".to_string()));
    assert_eq!(relative_to("/", "/a"), Some("a".to_string()));
    assert_eq!(relative_to("/p", "/p"), None);
    assert_eq!(relative_to("/p", "/q/a"), None);
    assert_eq!(relative_to("/p", "/prefix/a"), None);
}

//! Scanning one level of a base directory for build-artifact directories.

use clean_big_targets::{find_target_dirs, ChildEntry};

fn child(path: &str, name: &str, is_dir: bool, has_target_subdir: bool) -> ChildEntry {
    ChildEntry {
        path: path.to_string(),
        name: name.to_string(),
        is_dir,
        has_target_subdir,
    }
}

#[test]
fn test_find_target_dirs_none_found() {
    let entries: Vec<ChildEntry> = vec![];
    let result = find_target_dirs(&entries);
    assert_eq!(result.len(), 0);
}

#[test]
fn test_find_target_dirs_single() {
    let entries = vec![child("/base/project1", "project1", true, true)];
    let result = find_target_dirs(&entries);
    assert_eq!(result.len(), 1);
    assert!(result[0].ends_with("project1/target"));
}

#[test]
fn test_find_target_dirs_multiple() {
    let entries = vec![
        child("/base/project1", "project1", true, true),
        child("/base/project2", "project2", true, true),
        child("/base/project3", "project3", true, false),
    ];
    let result = find_target_dirs(&entries);
    assert_eq!(result.len(), 2);
}

#[test]
fn test_find_target_dirs_child_is_target() {
    // A child directory named "target": scanning the parent returns it directly.
    let entries = vec![child("/base/target", "target", true, false)];
    let result = find_target_dirs(&entries);
    assert_eq!(result.len(), 1);
    assert!(result[0].ends_with("target"));
}

#[test]
fn test_find_target_dirs_short_circuit_discards_siblings() {
    // Candidates before and after the target-named child are all discarded.
    let entries = vec![
        child("/base/project1", "project1", true, true),
        child("/base/target", "target", true, false),
        child("/base/project2", "project2", true, true),
    ];
    let result = find_target_dirs(&entries);
    assert_eq!(result, vec!["/base/target".to_string()]);
}

#[test]
fn test_find_target_dirs_exact_paths_in_order() {
    let entries = vec![
        child("/base/beta", "beta", true, true),
        child("/base/alpha", "alpha", true, true),
    ];
    let result = find_target_dirs(&entries);
    assert_eq!(
        result,
        vec![
            "/base/beta/target".to_string(),
            "/base/alpha/target".to_string()
        ]
    );
}

#[test]
fn test_find_target_dirs_skips_non_directories() {
    // A plain file named "target" neither stops the scan nor is a candidate.
    let entries = vec![
        child("/base/target", "target", false, false),
        child("/base/project1", "project1", true, true),
        child("/base/notes.txt", "notes.txt", false, false),
    ];
    let result = find_target_dirs(&entries);
    assert_eq!(result, vec!["/base/project1/target".to_string()]);
}

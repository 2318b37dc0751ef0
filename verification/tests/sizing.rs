//! Size accounting over in-memory directory trees.

use clean_big_targets::{calculate_dir_size, FsTree};

#[test]
fn test_calculate_dir_size_empty() {
    let tree = FsTree::Dir(vec![]);
    let size = calculate_dir_size(&tree).unwrap();
    assert_eq!(size, 0);
}

#[test]
fn test_calculate_dir_size_single_file() {
    let contents = "Hello, World!";
    let tree = FsTree::Dir(vec![FsTree::File(contents.len() as u64)]);
    let size = calculate_dir_size(&tree).unwrap();
    assert_eq!(size, 13); // "Hello, World!" is 13 bytes
}

#[test]
fn test_calculate_dir_size_multiple_files() {
    let file1 = "12345";
    let file2 = "67890";
    let tree = FsTree::Dir(vec![
        FsTree::File(file1.len() as u64),
        FsTree::File(file2.len() as u64),
    ]);
    let size = calculate_dir_size(&tree).unwrap();
    assert_eq!(size, 10);
}

#[test]
fn test_calculate_dir_size_nested() {
    let top = "abc";
    let nested = "defgh";
    let tree = FsTree::Dir(vec![
        FsTree::File(top.len() as u64),
        FsTree::Dir(vec![FsTree::File(nested.len() as u64)]),
    ]);
    let size = calculate_dir_size(&tree).unwrap();
    assert_eq!(size, 8);
}

#[test]
fn test_calculate_dir_size_plain_file() {
    let tree = FsTree::File(42);
    assert_eq!(calculate_dir_size(&tree), Some(42));
}

#[test]
fn test_calculate_dir_size_deeply_nested_empty() {
    let tree = FsTree::Dir(vec![FsTree::Dir(vec![FsTree::Dir(vec![])])]);
    assert_eq!(calculate_dir_size(&tree), Some(0));
}

#[test]
fn test_calculate_dir_size_overflow() {
    let tree = FsTree::Dir(vec![FsTree::File(u64::MAX), FsTree::File(1)]);
    assert_eq!(calculate_dir_size(&tree), None);
}

#[test]
fn test_calculate_dir_size_at_limit() {
    let tree = FsTree::Dir(vec![FsTree::File(u64::MAX), FsTree::File(0)]);
    assert_eq!(calculate_dir_size(&tree), Some(u64::MAX));
}

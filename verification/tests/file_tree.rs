use lazygitrs::file_tree::{build_commit_file_tree, build_file_tree, selected_file_index, FileTreeNode};
use lazygitrs::model::{CommitFile, File, FileChangeStatus, FileStatus};

fn file(name: &str) -> File {
    File {
        name: name.to_string(),
        display_name: name.to_string(),
        status: FileStatus::Modified,
        has_staged_changes: false,
        has_unstaged_changes: true,
        git_tracked: true,
        added: false,
        deleted: false,
        has_merge_conflicts: false,
        short_status: " M".to_string(),
    }
}

fn summary(nodes: &[FileTreeNode]) -> Vec<(usize, String, String, Option<usize>, bool, Vec<usize>)> {
    nodes
        .iter()
        .map(|n| (n.depth, n.name.clone(), n.path.clone(), n.file_index, n.is_dir, n.child_file_indices.clone()))
        .collect()
}

fn files() -> Vec<File> {
    vec![file("src/main.rs"), file("README.md"), file("src/gui/mod.rs")]
}

#[test]
fn file_tree_lists_directories_before_their_files_in_path_order() {
    let nodes = build_file_tree(&files(), &[]);
    let expected = vec![
        (0, ".".to_string(), ".".to_string(), None, true, vec![0, 1, 2]),
        (1, "README.md".to_string(), "README.md".to_string(), Some(1), false, vec![]),
        (1, "src".to_string(), "src".to_string(), None, true, vec![2, 0]),
        (2, "gui".to_string(), "src/gui".to_string(), None, true, vec![2]),
        (3, "mod.rs".to_string(), "src/gui/mod.rs".to_string(), Some(2), false, vec![]),
        (2, "main.rs".to_string(), "src/main.rs".to_string(), Some(0), false, vec![]),
    ];
    assert_eq!(summary(&nodes), expected);
}

#[test]
fn file_tree_collapsed_directory_keeps_its_node_and_hides_what_is_below() {
    let nodes = build_file_tree(&files(), &["src".to_string()]);
    let expected = vec![
        (0, ".".to_string(), ".".to_string(), None, true, vec![0, 1, 2]),
        (1, "README.md".to_string(), "README.md".to_string(), Some(1), false, vec![]),
        (1, "src".to_string(), "src".to_string(), None, true, vec![2, 0]),
    ];
    assert_eq!(summary(&nodes), expected);
}

#[test]
fn file_tree_collapsed_root_shows_only_the_root() {
    let nodes = build_file_tree(&files(), &[".".to_string()]);
    assert_eq!(nodes.len(), 1);
    assert_eq!(nodes[0].path, ".");
    assert_eq!(nodes[0].child_file_indices, vec![0, 1, 2]);
}

#[test]
fn file_tree_of_no_files_is_empty() {
    assert!(build_file_tree(&[], &[]).is_empty());
    assert!(build_file_tree(&[], &[".".to_string()]).is_empty());
}

#[test]
fn file_tree_equal_paths_keep_their_order() {
    let nodes = build_file_tree(&[file("a/x"), file("a/x")], &[]);
    let indices: Vec<Option<usize>> = nodes.iter().map(|n| n.file_index).collect();
    assert_eq!(indices, vec![None, None, Some(0), Some(1)]);
}

#[test]
fn commit_file_tree_matches_file_tree_without_children() {
    let commit_files: Vec<CommitFile> = ["src/main.rs", "README.md", "src/gui/mod.rs"]
        .iter()
        .map(|n| CommitFile { name: n.to_string(), status: FileChangeStatus::Modified })
        .collect();
    let nodes = build_commit_file_tree(&commit_files, &["src/gui".to_string()]);
    let got: Vec<(usize, String, String, Option<usize>, bool)> =
        nodes.iter().map(|n| (n.depth, n.name.clone(), n.path.clone(), n.file_index, n.is_dir)).collect();
    let expected = vec![
        (0, ".".to_string(), ".".to_string(), None, true),
        (1, "README.md".to_string(), "README.md".to_string(), Some(1), false),
        (1, "src".to_string(), "src".to_string(), None, true),
        (2, "gui".to_string(), "src/gui".to_string(), None, true),
        (2, "main.rs".to_string(), "src/main.rs".to_string(), Some(0), false),
    ];
    assert_eq!(got, expected);
}

#[test]
fn selection_maps_to_a_file_in_tree_view() {
    let nodes = build_file_tree(&files(), &[]);
    let first_file = nodes.iter().position(|n| !n.is_dir).unwrap();
    assert_eq!(selected_file_index(true, &nodes, first_file), nodes[first_file].file_index);
    assert_eq!(selected_file_index(true, &nodes, 0), None);
    assert_eq!(selected_file_index(true, &nodes, 99), None);
    assert_eq!(selected_file_index(false, &nodes, 2), Some(2));
}

#[test]
fn both_trees_agree_with_repeated_names() {
    let names = ["a/x.rs", "b.rs", "a/x.rs", "a/c/d.rs"];
    let fs: Vec<File> = names.iter().map(|n| file(n)).collect();
    let cfs: Vec<CommitFile> =
        names.iter().map(|n| CommitFile { name: n.to_string(), status: FileChangeStatus::Added }).collect();
    for collapsed in [vec![], vec!["a".to_string()], vec!["a/c".to_string()]] {
        let t1: Vec<_> = build_file_tree(&fs, &collapsed)
            .iter()
            .map(|n| (n.depth, n.name.clone(), n.path.clone(), n.file_index, n.is_dir))
            .collect();
        let t2: Vec<_> = build_commit_file_tree(&cfs, &collapsed)
            .iter()
            .map(|n| (n.depth, n.name.clone(), n.path.clone(), n.file_index, n.is_dir))
            .collect();
        assert_eq!(t1, t2);
    }
    let t = build_file_tree(&fs, &[]);
    let xs: Vec<Option<usize>> = t.iter().filter(|n| n.path == "a/x.rs").map(|n| n.file_index).collect();
    assert_eq!(xs, vec![Some(0), Some(2)]);
}

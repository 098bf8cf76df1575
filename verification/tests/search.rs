use lazygitrs::file_tree::build_file_tree;
use lazygitrs::model::{Commit, CommitStatus, Divergence, File, FileStatus, Model, Tag};
use lazygitrs::search::{list_search_matches, ListSearch, SearchContext};

fn commit(hash: &str, name: &str, author: &str) -> Commit {
    Commit {
        hash: hash.to_string(),
        name: name.to_string(),
        status: CommitStatus::Pushed,
        action: String::new(),
        tags: Vec::new(),
        refs: Vec::new(),
        extra_info: String::new(),
        author_name: author.to_string(),
        author_email: String::new(),
        unix_timestamp: 0,
        parents: Vec::new(),
        divergence: Divergence::NotDiverged,
    }
}

#[test]
fn commits_match_by_subject_author_or_hash_prefix() {
    let mut m = Model::new();
    m.commits = vec![commit("abc123", "Fix Parser", "Ann"), commit("def456", "Docs", "Bob"), commit("aaa", "misc", "PARSE bot")];
    assert_eq!(list_search_matches(&m, &vec![], &vec![], SearchContext::Commits, "parse"), vec![0, 2]);
    assert_eq!(list_search_matches(&m, &vec![], &vec![], SearchContext::Commits, "def"), vec![1]);
    assert_eq!(list_search_matches(&m, &vec![], &vec![], SearchContext::Commits, "ABC"), Vec::<usize>::new());
    assert!(list_search_matches(&m, &vec![], &vec![], SearchContext::Commits, "").is_empty());
    m.tags = vec![Tag { name: "v1.0".to_string(), hash: "h".to_string(), message: String::new() }];
    assert_eq!(list_search_matches(&m, &vec![], &vec![], SearchContext::Tags, "V1"), vec![0]);
    assert!(list_search_matches(&m, &vec![], &vec![], SearchContext::Other, "x").is_empty());
}

#[test]
fn file_tree_matches_by_name_or_path() {
    let mut m = Model::new();
    let f = |n: &str| File {
        name: n.to_string(),
        display_name: n.to_string(),
        status: FileStatus::Modified,
        has_staged_changes: false,
        has_unstaged_changes: true,
        git_tracked: true,
        added: false,
        deleted: false,
        has_merge_conflicts: false,
        short_status: " M".to_string(),
    };
    m.files = vec![f("src/Gui/mod.rs"), f("README.md")];
    let tree = build_file_tree(&m.files, &[]);
    let hits = list_search_matches(&m, &tree, &vec![], SearchContext::FileTree, "gui");
    let paths: Vec<&str> = hits.iter().map(|&i| tree[i].path.as_str()).collect();
    assert_eq!(paths, vec!["src/Gui", "src/Gui/mod.rs"]);
    assert_eq!(list_search_matches(&m, &tree, &vec![], SearchContext::Files, "readme"), vec![1]);
}

#[test]
fn search_matches_go_round() {
    let mut s = ListSearch::new();
    assert!(s.active);
    assert_eq!(s.next_match(), None);
    s.set_matches(vec![3, 7, 9]);
    assert_eq!(s.confirm(), Some(3));
    assert!(!s.active);
    assert_eq!(s.next_match(), Some(7));
    assert_eq!(s.next_match(), Some(9));
    assert_eq!(s.next_match(), Some(3));
    assert_eq!(s.prev_match(), Some(9));
    assert_eq!(s.next_match(), Some(3));
    s.cancel();
    assert!(s.matches.is_empty() && s.match_idx == 0 && !s.active);
    assert_eq!(s.confirm(), None);
}

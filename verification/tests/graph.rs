use lazygitrs::graph::{compute_graph, GraphCell, GraphLayoutCache};
use lazygitrs::model::{Commit, CommitStatus, Divergence};

fn commit(hash: &str, parent: Option<&str>) -> Commit {
    Commit {
        hash: hash.to_string(),
        name: String::new(),
        status: CommitStatus::Pushed,
        action: String::new(),
        tags: Vec::new(),
        refs: Vec::new(),
        extra_info: String::new(),
        author_name: String::new(),
        author_email: String::new(),
        unix_timestamp: 0,
        parents: parent.into_iter().map(str::to_string).collect(),
        divergence: Divergence::NotDiverged,
    }
}

#[test]
fn graph_layout_cache_rebuilds_when_revision_changes() {
    let mut cache = GraphLayoutCache::new();
    let mut commits = vec![commit("bbbbbbb", Some("aaaaaaa"))];
    cache.update(&commits, 1);
    assert_eq!(cache.rows.len(), 1);

    commits.push(commit("aaaaaaa", None));
    cache.update(&commits, 2);
    assert_eq!(cache.rows.len(), 2);
    assert_eq!(cache.revision, Some(2));
}

#[test]
fn merge_graph_of_four_commits() {
    let c = |h: &str, ps: &[&str]| (h.to_string(), ps.iter().map(|p| p.to_string()).collect::<Vec<String>>());
    let commits = vec![c("d", &["c", "b"]), c("c", &["a"]), c("b", &["a"]), c("a", &[])];
    let rows = compute_graph(&commits);
    assert_eq!(rows.len(), 4);
    assert_eq!(rows[0].commit_col, 0);
    assert_eq!(rows[0].cells, vec![GraphCell::Node, GraphCell::MergeRight]);
    assert_eq!(rows[1].commit_col, 0);
    assert_eq!(rows[1].cells, vec![GraphCell::Node, GraphCell::Pipe]);
    assert_eq!(rows[2].commit_col, 1);
    assert_eq!(rows[2].cells, vec![GraphCell::Pipe, GraphCell::Node]);
    assert_eq!(rows[3].commit_col, 0);
    assert_eq!(rows[3].cells, vec![GraphCell::Node, GraphCell::ConvergeFromRight]);
}

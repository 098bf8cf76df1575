use lazygitrs::actions::{
    plan_commit_op, plan_remove_worktree, rebase_commits, rebase_start, switch_worktree_target, toggle_stage, toggle_stage_all, worktree_input, CommitOp, RebaseStart,
};
use lazygitrs::git::GitCommands;
use lazygitrs::model::{Commit, CommitStatus, Divergence, File, FileStatus, Worktree};

fn file(name: &str, staged: bool, unstaged: bool, git_tracked: bool) -> File {
    File {
        name: name.to_string(),
        display_name: name.to_string(),
        status: FileStatus::Modified,
        has_staged_changes: staged,
        has_unstaged_changes: unstaged,
        git_tracked,
        added: false,
        deleted: false,
        has_merge_conflicts: false,
        short_status: String::new(),
    }
}

fn commit(hash: &str, name: &str) -> Commit {
    Commit {
        hash: hash.to_string(),
        name: name.to_string(),
        status: CommitStatus::Pushed,
        action: String::new(),
        tags: Vec::new(),
        refs: Vec::new(),
        extra_info: String::new(),
        author_name: String::new(),
        author_email: String::new(),
        unix_timestamp: 0,
        parents: Vec::new(),
        divergence: Divergence::NotDiverged,
    }
}

fn args(v: &[&str]) -> Vec<String> {
    v.iter().map(|s| s.to_string()).collect()
}

#[test]
fn stage_key_stages_or_unstages() {
    let g = GitCommands::new("/repo".to_string());
    let files = vec![file("a", true, false, true), file("b", true, true, true), file("c", false, false, false)];
    assert_eq!(toggle_stage(&g, &files, 0).unwrap().args, args(&["reset", "HEAD", "--", "a"]));
    assert_eq!(toggle_stage(&g, &files, 1).unwrap().args, args(&["add", "--", "b"]));
    assert_eq!(toggle_stage(&g, &files, 2).unwrap().args, args(&["add", "--", "c"]));
    assert!(toggle_stage(&g, &files, 3).is_none());
}

#[test]
fn stage_all_key_depends_on_unstaged_files() {
    let g = GitCommands::new("/repo".to_string());
    let staged = vec![file("a", true, false, true)];
    assert_eq!(toggle_stage_all(&g, &staged).args, args(&["reset", "HEAD"]));
    let untracked = vec![file("a", true, false, true), file("n", false, false, false)];
    assert_eq!(toggle_stage_all(&g, &untracked).args, args(&["add", "-A"]));
    assert_eq!(toggle_stage_all(&g, &Vec::new()).args, args(&["reset", "HEAD"]));
    assert_eq!(toggle_stage_all(&g, &staged).cwd, "/repo");
}

#[test]
fn commit_ops_ask_before_acting() {
    let commits = vec![commit("0123456789", "head work"), commit("abcdef0123", "older"), commit("fedcba", "first")];
    let p = plan_commit_op(CommitOp::Squash, &commits, 1).unwrap();
    assert_eq!(p.title, "Squash");
    assert_eq!(p.text, "Squash commit abcdef0 into its parent?");
    assert_eq!(p.hash, "abcdef0123");
    assert!(p.confirm && !p.at_head);
    let d = plan_commit_op(CommitOp::Drop, &commits, 2).unwrap();
    assert_eq!(d.text, "Drop commit fedcba from history?");
    let c = plan_commit_op(CommitOp::Checkout, &commits, 0).unwrap();
    assert_eq!(c.text, "Checkout commit 0123456? (detached HEAD)");
    assert_eq!(plan_commit_op(CommitOp::Revert, &commits, 0).unwrap().text, "Revert commit 0123456?");
    assert_eq!(plan_commit_op(CommitOp::CreateFixup, &commits, 1).unwrap().title, "Create fixup commit");
    assert_eq!(plan_commit_op(CommitOp::Fixup, &commits, 1).unwrap().text, "Fixup commit abcdef0 into its parent?");
}

#[test]
fn amend_differs_at_head() {
    let commits = vec![commit("0123456789", "head work"), commit("abcdef0123", "older")];
    let h = plan_commit_op(CommitOp::AmendTo, &commits, 0).unwrap();
    assert_eq!((h.title.as_str(), h.text.as_str()), ("Amend", "Amend staged changes to HEAD commit?"));
    assert!(h.at_head);
    let o = plan_commit_op(CommitOp::AmendTo, &commits, 1).unwrap();
    assert_eq!((o.title.as_str(), o.text.as_str()), ("Amend to commit", "Amend staged changes to commit abcdef0?"));
}

#[test]
fn reword_edits_current_message() {
    let commits = vec![commit("0123456789", "head work")];
    let r = plan_commit_op(CommitOp::Reword, &commits, 0).unwrap();
    assert_eq!((r.title.as_str(), r.text.as_str()), ("Reword commit", "head work"));
    assert!(!r.confirm && r.at_head);
}

#[test]
fn commit_ops_that_do_not_apply() {
    let commits = vec![commit("0123456789", "a"), commit("abcdef0123", "b")];
    assert!(plan_commit_op(CommitOp::Squash, &commits, 0).is_none());
    assert!(plan_commit_op(CommitOp::Fixup, &commits, 0).is_none());
    assert!(plan_commit_op(CommitOp::MoveUp, &commits, 0).is_none());
    assert!(plan_commit_op(CommitOp::MoveDown, &commits, 1).is_none());
    assert!(plan_commit_op(CommitOp::Revert, &commits, 2).is_none());
    let up = plan_commit_op(CommitOp::MoveUp, &commits, 1).unwrap();
    assert!(!up.confirm && up.title.is_empty() && up.text.is_empty());
    assert!(plan_commit_op(CommitOp::MoveDown, &commits, 0).is_some());
}

fn worktree(path: &str, branch: &str, current: bool, main: bool) -> Worktree {
    Worktree { path: path.to_string(), branch: branch.to_string(), hash: "h".to_string(), is_current: current, is_main: main }
}

#[test]
fn worktree_input_names_branch_and_base() {
    assert_eq!(worktree_input("  feat  "), Some(("feat".to_string(), None)));
    assert_eq!(worktree_input("feat main extra"), Some(("feat".to_string(), Some("main".to_string()))));
    assert_eq!(worktree_input(" \t "), None);
}

#[test]
fn removing_a_worktree_asks_first() {
    let g = GitCommands::new("/repo".to_string());
    let wts = vec![worktree("/repo", "main", true, true), worktree("/wt/x", "x", false, false), worktree("/wt/y", "y", true, false)];
    assert!(plan_remove_worktree(&g, &wts, 0).is_none());
    assert!(plan_remove_worktree(&g, &wts, 2).is_none());
    assert!(plan_remove_worktree(&g, &wts, 3).is_none());
    let (q, c) = plan_remove_worktree(&g, &wts, 1).unwrap();
    assert_eq!(q, "Remove worktree 'x' (/wt/x)?\nThis won't delete the branch.");
    assert_eq!(c.args, args(&["worktree", "remove", "/wt/x"]));
    assert_eq!(switch_worktree_target(&wts, 0), None);
    assert_eq!(switch_worktree_target(&wts, 1), Some(("x".to_string(), "/wt/x".to_string())));
}

#[test]
fn interactive_rebase_needs_another_base() {
    let commits = vec![commit("h0", "head"), commit("h1", "one"), commit("h2", "two")];
    assert_eq!(rebase_start(&commits, 0, "h0"), RebaseStart::OntoItself);
    assert_eq!(rebase_start(&commits, 2, "h0"), RebaseStart::Base(2));
    assert_eq!(rebase_start(&commits, 3, "h0"), RebaseStart::NoCommit);
}

#[test]
fn rebase_lists_known_commits_in_range_order() {
    let commits = vec![commit("h0", "head"), commit("h1", "one"), commit("h2", "two")];
    let hashes = vec!["h1".to_string(), "zz".to_string(), "h0".to_string()];
    assert_eq!(rebase_commits(&commits, &hashes), Some(vec![1, 0]));
    assert_eq!(rebase_commits(&commits, &vec!["zz".to_string()]), None);
    assert_eq!(rebase_commits(&commits, &Vec::new()), None);
}

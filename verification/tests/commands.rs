use lazygitrs::git::commit::RewordPlan;
use lazygitrs::git::staging::DiffHunk;
use lazygitrs::git::{stdout_checked, stdout_or_empty, CmdOutput, GitCommand, GitCommands, GitError};

fn repo() -> GitCommands {
    GitCommands::new("/repo".to_string())
}

fn args(c: &GitCommand) -> Vec<&str> {
    c.args.iter().map(|s| s.as_str()).collect()
}

#[test]
fn remote_commands() {
    let g = repo();
    assert_eq!(args(&g.add_remote("up", "git@h:o/r.git")), ["remote", "add", "up", "git@h:o/r.git"]);
    assert_eq!(args(&g.delete_remote("up")), ["remote", "remove", "up"]);
    assert_eq!(args(&g.fetch_all()), ["fetch", "--all"]);
    let bg = g.fetch_all_background();
    assert_eq!(args(&bg), ["fetch", "--all"]);
    assert_eq!(bg.env, vec![("GIT_TERMINAL_PROMPT".to_string(), "0".to_string())]);
    assert_eq!(args(&g.checkout_remote_branch("origin", "feat")), ["checkout", "-b", "feat", "origin/feat"]);
    assert_eq!(args(&g.delete_remote_branch("origin", "feat")), ["push", "origin", "--delete", "feat"]);
    assert_eq!(args(&g.merge_remote_branch("origin", "feat", " --no-ff  --squash")), ["merge", "origin/feat", "--no-ff", "--squash"]);
    assert_eq!(args(&g.merge_remote_branch("origin", "feat", "")), ["merge", "origin/feat"]);
    assert_eq!(args(&g.rebase_remote_branch("origin", "main")), ["rebase", "origin/main"]);
    assert_eq!(args(&g.push_with_upstream("origin", "feat")), ["push", "-u", "origin", "feat"]);
}

#[test]
fn tag_commands() {
    let g = repo();
    assert_eq!(args(&g.create_tag("v1", "")), ["tag", "v1"]);
    assert_eq!(args(&g.create_tag("v1", "first")), ["tag", "-a", "v1", "-m", "first"]);
    assert_eq!(args(&g.delete_tag("v1")), ["tag", "-d", "v1"]);
    assert_eq!(args(&g.push_tag("v1")), ["push", "origin", "v1"]);
}

#[test]
fn commit_commands() {
    let g = repo();
    assert_eq!(args(&g.create_commit("msg", false)), ["commit", "-m", "msg"]);
    assert_eq!(args(&g.create_commit("msg", true)), ["commit", "-m", "msg", "--signoff"]);
    assert_eq!(args(&g.amend_commit()), ["commit", "--amend", "--no-edit"]);
    match g.reword_commit("abc", "new", "abc") {
        RewordPlan::Amend(c) => assert_eq!(args(&c), ["commit", "--amend", "-m", "new"]),
        _ => panic!("HEAD is amended"),
    }
    match g.reword_commit("abc", "new", "def") {
        RewordPlan::Rebase { hash, message } => assert_eq!((hash.as_str(), message.as_str()), ("abc", "new")),
        _ => panic!("an older commit is reworded by a rebase"),
    }
    assert_eq!(args(&g.revert_commit("abc")), ["revert", "abc"]);
    assert_eq!(args(&g.cherry_pick(&["a".to_string(), "b".to_string()])), ["cherry-pick", "a", "b"]);
    assert_eq!(args(&g.commit_message_full("abc")), ["log", "-1", "--format=%B", "abc"]);
    assert_eq!(args(&g.commit_diff("abc")), ["diff", "abc^..abc"]);
    assert_eq!(args(&g.reset_to_commit("abc", "--hard")), ["reset", "--hard", "abc"]);
    assert_eq!(args(&g.commit_subject("abc")), ["log", "-1", "--format=%s", "abc"]);
    assert_eq!(args(&g.resolve_ref("HEAD~2")), ["rev-parse", "HEAD~2"]);
    let bare = g.git_cmd();
    assert!(bare.args.is_empty());
    assert_eq!((bare.program.as_str(), bare.cwd.as_str()), ("git", "/repo"));
}

#[test]
fn diff_and_content_commands() {
    let g = repo();
    assert_eq!(args(&g.diff_staged()), ["diff", "--cached", "--color=never"]);
    assert_eq!(args(&g.diff_commit("abc")), ["show", "--color=never", "--format=", "abc"]);
    assert_eq!(args(&g.file_content_at_commit("abc", "src/x.rs")), ["show", "abc:src/x.rs"]);
    assert_eq!(args(&g.file_content_staged("src/x.rs")), ["show", ":src/x.rs"]);
    assert_eq!(g.file_content("src/x.rs"), "/repo/src/x.rs");
    assert_eq!(g.discard_target("src/x.rs"), "/repo/src/x.rs");
    assert_eq!(args(&g.refresh_files()), ["status", "--porcelain", "-u"]);
}

#[test]
fn discarding_a_file() {
    let g = repo();
    let (reset, checkout) = g.discard_file("a.txt", false);
    assert_eq!(args(&reset), ["reset", "HEAD", "--", "a.txt"]);
    assert_eq!(args(&checkout.unwrap()), ["checkout", "--", "a.txt"]);
    let (_, none) = g.discard_file("new.txt", true);
    assert!(none.is_none());
}

#[test]
fn worktree_commands() {
    let g = repo();
    assert_eq!(args(&g.create_worktree("/wt/x", "x")), ["worktree", "add", "/wt/x", "x"]);
    assert_eq!(args(&g.create_worktree_new_branch("/wt/y", "y")), ["worktree", "add", "-b", "y", "/wt/y"]);
    let (add, none) = g.add_worktree_commands("feat", None, "/wt/feat", true);
    assert_eq!(args(&add), ["worktree", "add", "/wt/feat", "feat"]);
    assert!(none.is_none());
    let (add, cfg) = g.add_worktree_commands("feat", Some("main"), "/wt/feat", false);
    assert_eq!(args(&add), ["worktree", "add", "-b", "feat", "/wt/feat", "main"]);
    let cfg = cfg.unwrap();
    assert_eq!(args(&cfg), ["config", "branch.feat.base", "main"]);
    assert_eq!(cfg.cwd, "/wt/feat");
    let (add, _) = g.add_worktree_commands("feat", None, "/wt/feat", false);
    assert_eq!(args(&add), ["worktree", "add", "-b", "feat", "/wt/feat", "HEAD"]);
}

#[test]
fn rebase_and_merge_commands() {
    let g = repo();
    let cont = g.continue_rebase();
    assert_eq!(args(&cont), ["rebase", "--continue"]);
    assert_eq!(cont.env, vec![("GIT_EDITOR".to_string(), "true".to_string())]);
    assert_eq!(args(&g.abort_rebase()), ["rebase", "--abort"]);
    assert_eq!(args(&g.abort_merge()), ["merge", "--abort"]);
}

#[test]
fn hunk_commands_carry_a_patch() {
    let g = repo();
    let hunk = DiffHunk {
        header: "@@ -1 +1 @@".to_string(),
        old_start: 1,
        old_count: 1,
        new_start: 1,
        new_count: 1,
        lines: vec!["@@ -1 +1 @@".to_string(), "-a".to_string(), "+b".to_string()],
    };
    let patch = "--- a/f.txt\n+++ b/f.txt\n@@ -1 +1 @@\n-a\n+b\n";
    let stage = g.stage_hunk("f.txt", &hunk);
    assert_eq!(args(&stage), ["apply", "--cached", "--unidiff-zero", "-"]);
    assert_eq!(stage.stdin.as_deref(), Some(patch));
    let unstage = g.unstage_hunk("f.txt", &hunk);
    assert_eq!(args(&unstage), ["apply", "--cached", "--reverse", "--unidiff-zero", "-"]);
    assert_eq!(unstage.stdin.as_deref(), Some(patch));
}

#[test]
fn reverting_a_hunk_from_a_diff() {
    let g = repo();
    let diff = "diff --git a/f b/f\n--- a/f\n+++ b/f\n@@ -1 +1 @@\n-a\n+b\n@@ -5 +5 @@\n-c\n+d\n";
    let c = g.revert_hunk_in_worktree_from_unified_diff("f", diff, 1).unwrap();
    assert_eq!(args(&c), ["apply", "--reverse", "--unidiff-zero", "-"]);
    assert_eq!(c.stdin.as_deref(), Some("--- a/f\n+++ b/f\n@@ -5 +5 @@\n-c\n+d\n"));
    match g.revert_hunk_in_worktree_from_unified_diff("f", diff, 2) {
        Err(GitError::HunkOutOfRange { index, count }) => assert_eq!((index, count), (3, 2)),
        _ => panic!("expected an out-of-range hunk"),
    }
}

#[test]
fn command_output_helpers() {
    let ok = CmdOutput { success: true, stdout: "out".to_string(), stderr: String::new() };
    let bad = CmdOutput { success: false, stdout: "x".to_string(), stderr: "boom".to_string() };
    assert_eq!(stdout_or_empty(&ok), "out");
    assert_eq!(stdout_or_empty(&bad), "");
    assert!(matches!(stdout_checked(&ok), Ok(s) if s == "out"));
    assert!(matches!(stdout_checked(&bad), Err(GitError::CommandFailed { stderr }) if stderr == "boom"));
}

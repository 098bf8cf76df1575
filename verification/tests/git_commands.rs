use lazygitrs::git::commit::{parse_commit_log, parse_unpushed_hashes};
use lazygitrs::git::diff::{count_lines, diff_shortstat, parse_stat, parse_untracked_files};
use lazygitrs::git::file::{append_ignore_entry, parse_files};
use lazygitrs::git::remote::{get_commit_url, get_pr_create_url, get_pr_url, parse_remote_branches, parse_remotes, remote_url_to_https};
use lazygitrs::git::status::{parse_ahead_behind, repo_status};
use lazygitrs::git::tag::parse_tags;
use lazygitrs::git::worktree::parse_worktrees;
use lazygitrs::git::{CmdOutput, GitCommand, GitCommands, GitError};
use lazygitrs::model::{CommitStatus, FileStatus};

fn ok(stdout: &str) -> CmdOutput {
    CmdOutput { success: true, stdout: stdout.to_string(), stderr: String::new() }
}

fn failed(stderr: &str) -> CmdOutput {
    CmdOutput { success: false, stdout: String::new(), stderr: stderr.to_string() }
}

fn args(c: &GitCommand) -> Vec<&str> {
    c.args.iter().map(|s| s.as_str()).collect()
}

#[test]
fn commands_run_git_in_the_repository() {
    let g = GitCommands::new("/repo".to_string());
    let c = g.stage_file("src/a.rs");
    assert_eq!(c.program, "git");
    assert_eq!(c.cwd, "/repo");
    assert_eq!(args(&c), vec!["add", "--", "src/a.rs"]);
    assert!(c.env.is_empty());
    assert!(c.stdin.is_none());
    assert_eq!(args(&g.unstage_file("x")), vec!["reset", "HEAD", "--", "x"]);
    assert_eq!(args(&g.stage_all()), vec!["add", "-A"]);
    assert_eq!(args(&g.unstage_all()), vec!["reset", "HEAD"]);
    assert_eq!(args(&g.load_files()), vec!["status", "--porcelain", "-u"]);
}

#[test]
fn load_commits_lists_the_log_format() {
    let g = GitCommands::new("/repo".to_string());
    let c = g.load_commits(300);
    assert_eq!(
        args(&c),
        vec!["log", "--all", "--max-count=300", "--format=%H|%s|%an|%ae|%at|%P|%D", "--no-show-signature", "--topo-order"]
    );
    let b = g.load_commits_for_branch("feature", 5);
    assert_eq!(
        args(&b),
        vec!["log", "feature", "--max-count=5", "--format=%H|%s|%an|%ae|%at|%P|%D", "--no-show-signature", "--topo-order"]
    );
}

#[test]
fn commit_log_is_parsed_field_by_field() {
    let out = ok("abc123|Fix bug|Ann|ann@x.io|1700000000|p1 p2|HEAD -> main, tag: v1.0, origin/main\nshort|line\ndef456|Init|Bob|bob@x.io|notanumber||\n");
    let commits = parse_commit_log(&out, &["def456".to_string()]);
    assert_eq!(commits.len(), 2);
    let c = &commits[0];
    assert_eq!(c.hash, "abc123");
    assert_eq!(c.name, "Fix bug");
    assert_eq!(c.author_name, "Ann");
    assert_eq!(c.author_email, "ann@x.io");
    assert_eq!(c.unix_timestamp, 1700000000);
    assert_eq!(c.parents, vec!["p1".to_string(), "p2".to_string()]);
    assert_eq!(c.tags, vec!["v1.0".to_string()]);
    assert_eq!(c.refs, vec!["HEAD -> main".to_string(), "origin/main".to_string()]);
    assert_eq!(c.status, CommitStatus::Pushed);
    let d = &commits[1];
    assert_eq!(d.unix_timestamp, 0);
    assert!(d.parents.is_empty());
    assert!(d.tags.is_empty() && d.refs.is_empty());
    assert_eq!(d.status, CommitStatus::Unpushed);
    assert!(parse_commit_log(&failed("bad"), &[]).is_empty());
}

#[test]
fn unpushed_hashes_are_the_lines() {
    assert_eq!(parse_unpushed_hashes(&ok("a\nb\n")), vec!["a".to_string(), "b".to_string()]);
    assert!(parse_unpushed_hashes(&failed("no upstream")).is_empty());
}

#[test]
fn status_lines_become_files() {
    let out = ok(" M src/main.rs\n?? new.txt\nR  old.rs -> new.rs\nUU both.rs\nxy\n");
    let files = parse_files(&out).ok().unwrap();
    assert_eq!(files.len(), 4);
    assert_eq!(files[0].name, "src/main.rs");
    assert_eq!(files[0].status, FileStatus::Modified);
    assert!(files[0].has_unstaged_changes && !files[0].has_staged_changes && files[0].git_tracked);
    assert_eq!(files[0].short_status, " M");
    assert_eq!(files[1].status, FileStatus::Untracked);
    assert!(!files[1].git_tracked && files[1].added);
    assert_eq!(files[2].name, "old.rs -> new.rs");
    assert_eq!(files[2].display_name, "new.rs");
    assert_eq!(files[2].status, FileStatus::Renamed);
    assert!(files[3].has_merge_conflicts);
    match parse_files(&failed("fatal")) {
        Err(GitError::CommandFailed { stderr }) => assert_eq!(stderr, "fatal"),
        _ => panic!("expected CommandFailed"),
    }
}

#[test]
fn ignore_entries_go_on_their_own_line() {
    assert_eq!(append_ignore_entry("", "target"), "target\n");
    assert_eq!(append_ignore_entry("a", "b"), "a\nb\n");
    assert_eq!(append_ignore_entry("a\n", "b"), "a\nb\n");
}

#[test]
fn shortstat_summaries_are_read() {
    assert_eq!(parse_stat(" 3 files changed, 10 insertions(+), 2 deletions(-)"), (10, 2));
    assert_eq!(parse_stat(" 1 file changed, 1 insertion(+)"), (1, 0));
    assert_eq!(parse_stat(""), (0, 0));
    let unstaged = ok(" 1 file changed, 4 insertions(+), 1 deletion(-)");
    let staged = ok(" 2 files changed, 6 insertions(+), 3 deletions(-)");
    assert_eq!(diff_shortstat(&unstaged, &staged, 5), (15, 4));
    assert_eq!(count_lines("a\nb\nc"), 3);
    assert_eq!(count_lines(""), 0);
    assert_eq!(parse_untracked_files(&ok("a\nb\n")), vec!["a".to_string(), "b".to_string()]);
}

#[test]
fn tags_are_parsed() {
    let tags = parse_tags(&ok("v1.0|abc|first release\nv2.0|def\n"));
    assert_eq!(tags.len(), 2);
    assert_eq!(tags[0].name, "v1.0");
    assert_eq!(tags[0].hash, "abc");
    assert_eq!(tags[0].message, "first release");
    assert_eq!(tags[1].message, "");
    assert!(parse_tags(&failed("x")).is_empty());
}

#[test]
fn remotes_group_their_urls() {
    let out = ok("origin\tgit@github.com:u/r.git (fetch)\norigin\tgit@github.com:u/r.git (push)\nup\thttps://x/y (fetch)\n");
    let remotes = parse_remotes(&out);
    assert_eq!(remotes.len(), 2);
    assert_eq!(remotes[0].name, "origin");
    assert_eq!(remotes[0].urls, vec!["git@github.com:u/r.git".to_string()]);
    assert_eq!(remotes[1].name, "up");
    assert!(remotes[0].branches.is_empty());
}

#[test]
fn remote_branches_drop_head() {
    let out = ok("origin/main|abc\norigin/HEAD|abc\norigin|abc\norigin/feat/x|def\n");
    let branches = parse_remote_branches(&out, "origin");
    let names: Vec<&str> = branches.iter().map(|b| b.name.as_str()).collect();
    assert_eq!(names, vec!["main", "feat/x"]);
    assert_eq!(branches[1].hash, "def");
    assert_eq!(branches[0].remote_name, "origin");
}

#[test]
fn remote_urls_become_web_addresses() {
    assert_eq!(remote_url_to_https("git@github.com:user/repo.git"), "https://github.com/user/repo");
    assert_eq!(remote_url_to_https("https://github.com/user/repo.git/"), "https://github.com/user/repo.git");
    assert_eq!(remote_url_to_https("https://gitlab.com/a/b///"), "https://gitlab.com/a/b");
    let out = ok("git@github.com:user/repo.git\n");
    assert_eq!(get_commit_url(&out, "abc").ok().unwrap(), "https://github.com/user/repo/commit/abc");
    assert_eq!(get_pr_create_url(&out, "feat").ok().unwrap(), "https://github.com/user/repo/compare/feat?expand=1");
    assert!(matches!(get_commit_url(&failed("no remote"), "abc"), Err(GitError::CommandFailed { .. })));
}

#[test]
fn pull_request_urls_need_output() {
    assert_eq!(get_pr_url(&ok("https://x/pull/1\n"), "b").ok().unwrap(), "https://x/pull/1");
    match get_pr_url(&ok("  \n"), "feat") {
        Err(GitError::NoPullRequest { branch }) => assert_eq!(branch, "feat"),
        _ => panic!("expected NoPullRequest"),
    }
}

#[test]
fn ahead_behind_counts_are_read() {
    assert_eq!(parse_ahead_behind(&ok("3\t5\n")), (3, 5));
    assert_eq!(parse_ahead_behind(&ok("oops")), (0, 0));
    assert_eq!(parse_ahead_behind(&failed("no upstream")), (0, 0));
}

#[test]
fn repo_status_reads_the_markers() {
    let s = repo_status(Some("main".to_string()), (1, 2), true, false, Some("0123456789abcdef\n".to_string()), false, true, false);
    assert_eq!(s.branch, "main");
    assert_eq!((s.ahead, s.behind), (1, 2));
    assert!(s.is_rebasing && !s.is_merging && s.is_cherry_picking && !s.is_bisecting);
    assert_eq!(s.rebase_onto_hash, "0123456789ab");
    let t = repo_status(None, (0, 0), false, false, Some("abc".to_string()), true, false, true);
    assert_eq!(t.branch, "HEAD");
    assert_eq!(t.rebase_onto_hash, "");
    assert!(t.is_merging && t.is_bisecting);
}

#[test]
fn worktrees_are_parsed_from_porcelain() {
    let out = ok("worktree /home/u/p/main\nHEAD abc\nbranch refs/heads/main\n\nworktree /home/u/p/feat\nHEAD def\nbranch refs/heads/feat/x\n\n");
    let wts = parse_worktrees(&out, "/home/u/p/feat");
    assert_eq!(wts.len(), 2);
    assert_eq!(wts[0].path, "/home/u/p/main");
    assert_eq!(wts[0].branch, "main");
    assert_eq!(wts[0].hash, "abc");
    assert!(wts[0].is_main && !wts[0].is_current);
    assert_eq!(wts[1].branch, "feat/x");
    assert!(wts[1].is_current && !wts[1].is_main);
}

#[test]
fn repository_name_is_the_last_component() {
    assert_eq!(GitCommands::new("/home/u/project/".to_string()).repo_name(), "project");
    assert_eq!(GitCommands::new("/".to_string()).repo_name(), "unknown");
    assert_eq!(GitCommands::new("/home/u/project/.".to_string()).repo_name(), "project");
    assert_eq!(GitCommands::new("/home/u/..".to_string()).repo_name(), "unknown");
    assert_eq!(GitCommands::new("repo//".to_string()).repo_name(), "repo");
}

#[test]
fn hunks_split_and_rejoin_a_diff() {
    let diff = "diff --git a/f b/f\n--- a/f\n+++ b/f\n@@ -1,2 +1,3 @@ fn a\n x\n+y\n@@ -10 +11,0 @@\n-z\n";
    let hunks = lazygitrs::git::staging::parse_diff_hunks(diff);
    assert_eq!(hunks.len(), 2);
    assert_eq!(hunks[0].header, "@@ -1,2 +1,3 @@ fn a");
    assert_eq!((hunks[0].old_start, hunks[0].old_count, hunks[0].new_start, hunks[0].new_count), (1, 2, 1, 3));
    assert_eq!((hunks[1].old_start, hunks[1].old_count, hunks[1].new_start, hunks[1].new_count), (10, 1, 11, 0));
    let rejoined: Vec<String> = hunks.iter().flat_map(|h| h.lines.clone()).collect();
    let from_first: Vec<String> = diff.lines().skip(3).map(|l| l.to_string()).collect();
    assert_eq!(rejoined, from_first);
    assert!(lazygitrs::git::staging::parse_diff_hunks("no hunks\nhere\n").is_empty());
}

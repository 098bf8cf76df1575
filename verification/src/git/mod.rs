use vstd::prelude::*;

use crate::model::{strs, Commit, File, Model, Remote, Tag, Worktree};
use crate::text::{chars_of, owned, string_of, trim, trim_exec};

pub mod commit;
pub mod diff;
pub mod file;
pub mod remote;
pub mod staging;
pub mod status;
pub mod tag;
pub mod worktree;

verus! {

/// A command to run: the program, its working directory, its arguments, extra
/// environment variables and what to feed on standard input.
pub struct GitCommand {
    pub program: String,
    pub cwd: String,
    pub args: Vec<String>,
    pub env: Vec<(String, String)>,
    pub stdin: Option<String>,
}

/// What a finished command reported.
pub struct CmdOutput {
    pub success: bool,
    pub stdout: String,
    pub stderr: String,
}

/// Why a git operation failed.
#[derive(Debug)]
pub enum GitError {
    /// The command exited unsuccessfully; its standard error.
    CommandFailed { stderr: String },
    /// `gh` found no pull request for the branch.
    NoPullRequest { branch: String },
    /// A hunk index past the hunks of a diff (index counted from 1).
    HunkOutOfRange { index: usize, count: usize },
    /// A branch name that is empty once trimmed.
    EmptyBranchName,
    /// A worktree target path that already exists.
    PathExists { path: String },
}

/// Facade for the git operations of one repository.
pub struct GitCommands {
    repo_path: String,
}

/// A part of the repository data, as each loader delivers it.
pub enum ModelPart {
    Files(Vec<File>),
    Commits(Vec<Commit>),
    Remotes(Vec<Remote>),
    Tags(Vec<Tag>),
    Worktrees(Vec<Worktree>),
    Reflog(Vec<Commit>),
    DiffStats { added: usize, deleted: usize },
    RepoStatus {
        is_rebasing: bool,
        is_merging: bool,
        is_cherry_picking: bool,
        is_bisecting: bool,
        rebase_onto_hash: String,
    },
    RepoUrl(String),
    Contributors(Vec<(String, usize)>),
}

/// The number of parts a full load delivers, one of each kind.
pub const MODEL_PART_COUNT: usize = 10;

impl Model {
    /// Stores a delivered part in its fields, leaving the others; says whether the part
    /// was the file list.
    pub fn apply_part(&mut self, part: ModelPart) -> (got_files: bool)
        ensures
            got_files == (part is Files),
            match part {
                ModelPart::Files(v) => final(self).files == v,
                ModelPart::Commits(v) => final(self).commits == v,
                ModelPart::Remotes(v) => final(self).remotes == v,
                ModelPart::Tags(v) => final(self).tags == v,
                ModelPart::Worktrees(v) => final(self).worktrees == v,
                ModelPart::Reflog(v) => final(self).reflog_commits == v,
                ModelPart::DiffStats { added, deleted } => final(self).total_additions == added && final(self).total_deletions == deleted,
                ModelPart::RepoStatus { is_rebasing, is_merging, is_cherry_picking, is_bisecting, rebase_onto_hash } => {
                    &&& final(self).is_rebasing == is_rebasing
                    &&& final(self).is_merging == is_merging
                    &&& final(self).is_cherry_picking == is_cherry_picking
                    &&& final(self).is_bisecting == is_bisecting
                    &&& final(self).rebase_onto_hash == rebase_onto_hash
                },
                ModelPart::RepoUrl(u) => final(self).repo_url == u,
                ModelPart::Contributors(c) => final(self).contributors == c,
            },
            !(part is Files) ==> final(self).files == old(self).files,
            !(part is Commits) ==> final(self).commits == old(self).commits,
            !(part is Remotes) ==> final(self).remotes == old(self).remotes,
            !(part is Tags) ==> final(self).tags == old(self).tags,
            !(part is Worktrees) ==> final(self).worktrees == old(self).worktrees,
            !(part is Reflog) ==> final(self).reflog_commits == old(self).reflog_commits,
            !(part is DiffStats) ==> final(self).total_additions == old(self).total_additions
                && final(self).total_deletions == old(self).total_deletions,
            !(part is RepoStatus) ==> final(self).is_rebasing == old(self).is_rebasing
                && final(self).is_merging == old(self).is_merging
                && final(self).is_cherry_picking == old(self).is_cherry_picking
                && final(self).is_bisecting == old(self).is_bisecting
                && final(self).rebase_onto_hash == old(self).rebase_onto_hash,
            !(part is RepoUrl) ==> final(self).repo_url == old(self).repo_url,
            !(part is Contributors) ==> final(self).contributors == old(self).contributors,
            final(self).repo_name == old(self).repo_name,
            final(self).head_hash == old(self).head_hash,
            final(self).commit_files == old(self).commit_files,
            final(self).sub_commits == old(self).sub_commits,
    {
        match part {
            ModelPart::Files(v) => {
                self.files = v;
                return true;
            },
            ModelPart::Commits(v) => self.commits = v,
            ModelPart::Remotes(v) => self.remotes = v,
            ModelPart::Tags(v) => self.tags = v,
            ModelPart::Worktrees(v) => self.worktrees = v,
            ModelPart::Reflog(v) => self.reflog_commits = v,
            ModelPart::DiffStats { added, deleted } => {
                self.total_additions = added;
                self.total_deletions = deleted;
            },
            ModelPart::RepoStatus { is_rebasing, is_merging, is_cherry_picking, is_bisecting, rebase_onto_hash } => {
                self.is_rebasing = is_rebasing;
                self.is_merging = is_merging;
                self.is_cherry_picking = is_cherry_picking;
                self.is_bisecting = is_bisecting;
                self.rebase_onto_hash = rebase_onto_hash;
            },
            ModelPart::RepoUrl(u) => self.repo_url = u,
            ModelPart::Contributors(c) => self.contributors = c,
        }
        false
    }
}

/// `c` runs `git` in `repo` with exactly `args`, no extra environment and no input.
pub open spec fn is_git(c: GitCommand, repo: Seq<char>, args: Seq<Seq<char>>) -> bool {
    &&& c.program@ == "git"@
    &&& c.cwd@ == repo
    &&& strs(c.args@) == args
    &&& c.env@.len() == 0
    &&& c.stdin is None
}

/// A command running `git` in `cwd` with `args`.
pub fn git_in(cwd: &str, args: Vec<String>) -> (c: GitCommand)
    ensures
        is_git(c, cwd@, strs(args@)),
{
    GitCommand { program: owned("git"), cwd: owned(cwd), args, env: Vec::new(), stdin: None }
}

/// The arguments a, in order.
pub fn args1(a: &str) -> (v: Vec<String>)
    ensures
        strs(v@) == seq![a@],
{
    let mut v: Vec<String> = Vec::new();
    v.push(owned(a));
    proof {
        assert(strs(v@) =~= seq![a@]);
    }
    v
}

/// The arguments a, b, in order.
pub fn args2(a: &str, b: &str) -> (v: Vec<String>)
    ensures
        strs(v@) == seq![a@, b@],
{
    let mut v: Vec<String> = Vec::new();
    v.push(owned(a));
    v.push(owned(b));
    proof {
        assert(strs(v@) =~= seq![a@, b@]);
    }
    v
}

/// The arguments a, b, c, in order.
pub fn args3(a: &str, b: &str, c: &str) -> (v: Vec<String>)
    ensures
        strs(v@) == seq![a@, b@, c@],
{
    let mut v: Vec<String> = Vec::new();
    v.push(owned(a));
    v.push(owned(b));
    v.push(owned(c));
    proof {
        assert(strs(v@) =~= seq![a@, b@, c@]);
    }
    v
}

/// The arguments a, b, c, d, in order.
pub fn args4(a: &str, b: &str, c: &str, d: &str) -> (v: Vec<String>)
    ensures
        strs(v@) == seq![a@, b@, c@, d@],
{
    let mut v: Vec<String> = Vec::new();
    v.push(owned(a));
    v.push(owned(b));
    v.push(owned(c));
    v.push(owned(d));
    proof {
        assert(strs(v@) =~= seq![a@, b@, c@, d@]);
    }
    v
}

/// The arguments a, b, c, d, e, in order.
pub fn args5(a: &str, b: &str, c: &str, d: &str, e: &str) -> (v: Vec<String>)
    ensures
        strs(v@) == seq![a@, b@, c@, d@, e@],
{
    let mut v: Vec<String> = Vec::new();
    v.push(owned(a));
    v.push(owned(b));
    v.push(owned(c));
    v.push(owned(d));
    v.push(owned(e));
    proof {
        assert(strs(v@) =~= seq![a@, b@, c@, d@, e@]);
    }
    v
}

/// The arguments a, b, c, d, e, f, in order.
pub fn args6(a: &str, b: &str, c: &str, d: &str, e: &str, f: &str) -> (v: Vec<String>)
    ensures
        strs(v@) == seq![a@, b@, c@, d@, e@, f@],
{
    let mut v: Vec<String> = Vec::new();
    v.push(owned(a));
    v.push(owned(b));
    v.push(owned(c));
    v.push(owned(d));
    v.push(owned(e));
    v.push(owned(f));
    proof {
        assert(strs(v@) =~= seq![a@, b@, c@, d@, e@, f@]);
    }
    v
}

/// The arguments a, b, c, d, e, f, g, in order.
pub fn args7(a: &str, b: &str, c: &str, d: &str, e: &str, f: &str, g: &str) -> (v: Vec<String>)
    ensures
        strs(v@) == seq![a@, b@, c@, d@, e@, f@, g@],
{
    let mut v: Vec<String> = Vec::new();
    v.push(owned(a));
    v.push(owned(b));
    v.push(owned(c));
    v.push(owned(d));
    v.push(owned(e));
    v.push(owned(f));
    v.push(owned(g));
    proof {
        assert(strs(v@) =~= seq![a@, b@, c@, d@, e@, f@, g@]);
    }
    v
}

/// Succeeds exactly when the command succeeded; otherwise its standard error.
pub fn expect_success(out: &CmdOutput) -> (r: Result<(), GitError>)
    ensures
        r is Ok <==> out.success,
        r matches Err(GitError::CommandFailed { stderr }) ==> stderr@ == out.stderr@,
        r matches Err(e) ==> e is CommandFailed,
{
    if out.success {
        Ok(())
    } else {
        Err(GitError::CommandFailed { stderr: out.stderr.clone() })
    }
}

/// The standard output of a command that must succeed.
pub fn stdout_checked(out: &CmdOutput) -> (r: Result<String, GitError>)
    ensures
        r is Ok <==> out.success,
        r matches Ok(s) ==> s@ == out.stdout@,
        r matches Err(GitError::CommandFailed { stderr }) ==> stderr@ == out.stderr@,
        r matches Err(e) ==> e is CommandFailed,
{
    expect_success(out)?;
    Ok(out.stdout.clone())
}

/// The trimmed standard output of a command that must succeed.
pub fn stdout_trimmed_checked(out: &CmdOutput) -> (r: Result<String, GitError>)
    ensures
        r is Ok <==> out.success,
        r matches Ok(s) ==> s@ == trim(out.stdout@),
        r matches Err(GitError::CommandFailed { stderr }) ==> stderr@ == out.stderr@,
        r matches Err(e) ==> e is CommandFailed,
{
    expect_success(out)?;
    Ok(trimmed_stdout(out))
}

/// The trimmed standard output, whether or not the command succeeded.
pub fn trimmed_stdout(out: &CmdOutput) -> (s: String)
    ensures
        s@ == trim(out.stdout@),
{
    let v = chars_of(out.stdout.as_str());
    let t = trim_exec(&v);
    string_of(&t)
}

/// The standard output of a successful command, or nothing.
pub fn stdout_or_empty(out: &CmdOutput) -> (s: String)
    ensures
        out.success ==> s@ == out.stdout@,
        !out.success ==> s@.len() == 0,
{
    if out.success {
        out.stdout.clone()
    } else {
        String::new()
    }
}

/// The last of `parts` that names something: neither empty (what a repeated, leading or
/// trailing separator leaves) nor `.`.
pub open spec fn last_named_part(parts: Seq<Seq<char>>) -> Option<Seq<char>>
    decreases parts.len(),
{
    if parts.len() == 0 {
        None
    } else if parts.last().len() == 0 || parts.last() == "."@ {
        last_named_part(parts.drop_last())
    } else {
        Some(parts.last())
    }
}

/// The last component of a `/`-separated path (std's `Path::file_name`): its last part
/// once empty and `.` parts are dropped; none when there is no such part or it is `..`.
pub open spec fn path_file_name(p: Seq<char>) -> Option<Seq<char>> {
    match last_named_part(crate::text::split_char(p, '/')) {
        Some(last) => if last == ".."@ {
            None
        } else {
            Some(last)
        },
        None => None,
    }
}

/// The last component of the path `path` (see `path_file_name`).
pub fn file_name_of(path: &str) -> (r: Option<String>)
    ensures
        path_file_name(path@) matches Some(f) ==> (r matches Some(n) && n@ == f),
        path_file_name(path@) is None ==> r is None,
{
    let v = chars_of(path);
    let parts = crate::text::split_at_char(&v, '/');
    let ghost ps = crate::text::split_char(v@, '/');
    let dot = chars_of(".");
    let dots = chars_of("..");
    let mut i: usize = parts.len();
    proof {
        assert(ps.take(i as int) =~= ps);
    }
    while i > 0 && (parts[i - 1].len() == 0 || crate::text::chars_eq(&parts[i - 1], &dot))
        invariant
            i <= parts@.len(),
            parts@.len() == ps.len(),
            forall|k: int| 0 <= k < parts@.len() ==> (#[trigger] parts@[k])@ == ps[k],
            dot@ == "."@,
            last_named_part(ps.take(i as int)) == last_named_part(ps),
        decreases i,
    {
        proof {
            assert(ps.take(i as int).drop_last() =~= ps.take(i - 1));
        }
        i = i - 1;
    }
    if i == 0 {
        proof {
            assert(ps.take(0) =~= Seq::<Seq<char>>::empty());
        }
        return None;
    }
    proof {
        assert(ps.take(i as int).last() == ps[i - 1]);
    }
    if crate::text::chars_eq(&parts[i - 1], &dots) {
        None
    } else {
        Some(string_of(&parts[i - 1]))
    }
}

/// `name` joined to the directory `base` (std's `Path::join`): an absolute `name`
/// replaces `base`; otherwise a separator stands between them unless `base` is empty
/// or already ends with one.
pub open spec fn path_join(base: Seq<char>, name: Seq<char>) -> Seq<char> {
    if name.len() > 0 && name[0] == '/' {
        name
    } else if base.len() == 0 {
        name
    } else if base.last() == '/' {
        base + name
    } else {
        base + "/"@ + name
    }
}

/// `name` joined to the directory `base`.
pub fn join_path(base: &str, name: &str) -> (r: String)
    ensures
        r@ == path_join(base@, name@),
{
    let b = chars_of(base);
    let n = chars_of(name);
    if n.len() > 0 && n[0] == '/' {
        return owned(name);
    }
    if b.len() == 0 {
        return owned(name);
    }
    if b[b.len() - 1] == '/' {
        crate::text::cat(base, name)
    } else {
        crate::text::cat3(base, "/", name)
    }
}

impl GitCommands {
    /// A facade for the repository at `repo_path` (an absolute, canonical path).
    pub fn new(repo_path: String) -> (g: GitCommands)
        ensures
            g.path() == repo_path@,
    {
        GitCommands { repo_path }
    }

    /// The path of the repository.
    pub closed spec fn path(&self) -> Seq<char> {
        self.repo_path@
    }

    /// The path of the repository.
    pub fn repo_path(&self) -> (p: &str)
        ensures
            p@ == self.path(),
    {
        self.repo_path.as_str()
    }

    /// A `git` command with no arguments yet, run in the repository.
    pub fn git_cmd(&self) -> (c: GitCommand)
        ensures
            is_git(c, self.path(), seq![]),
    {
        let args: Vec<String> = Vec::new();
        proof {
            assert(strs(args@) =~= Seq::<Seq<char>>::empty());
        }
        git_in(self.repo_path.as_str(), args)
    }

    /// A `git` command with `args`, run in the repository.
    pub fn git(&self, args: Vec<String>) -> (c: GitCommand)
        ensures
            is_git(c, self.path(), strs(args@)),
    {
        git_in(self.repo_path.as_str(), args)
    }

    /// The name of the repository: the last component of its path, or `unknown`.
    pub fn repo_name(&self) -> (n: String)
        ensures
            path_file_name(self.path()) matches Some(f) ==> n@ == f,
            path_file_name(self.path()) is None ==> n@ == "unknown"@,
    {
        match file_name_of(self.repo_path.as_str()) {
            Some(n) => n,
            None => owned("unknown"),
        }
    }

    /// The command that prints the current branch (`git branch --show-current`);
    /// its trimmed output is the name, whether or not git succeeds.
    pub fn current_branch_name(&self) -> (c: GitCommand)
        ensures
            is_git(c, self.path(), seq!["branch"@, "--show-current"@]),
    {
        self.git(args2("branch", "--show-current"))
    }

    /// The command that checks whether `path` is inside a git repository
    /// (`git rev-parse --git-dir` run there); it is one exactly when that succeeds.
    pub fn is_valid_repo(path: &str) -> (c: GitCommand)
        ensures
            is_git(c, path@, seq!["rev-parse"@, "--git-dir"@]),
    {
        git_in(path, args2("rev-parse", "--git-dir"))
    }

    /// The command that prints the HEAD commit hash (`git rev-parse HEAD`); its
    /// trimmed output is the hash, and it must succeed.
    pub fn head_hash(&self) -> (c: GitCommand)
        ensures
            is_git(c, self.path(), seq!["rev-parse"@, "HEAD"@]),
    {
        self.git(args2("rev-parse", "HEAD"))
    }

    /// The command that resolves a ref to a full hash (`git rev-parse <ref>`); its
    /// trimmed output is the hash, and it must succeed.
    pub fn resolve_ref(&self, refspec: &str) -> (c: GitCommand)
        ensures
            is_git(c, self.path(), seq!["rev-parse"@, refspec@]),
    {
        self.git(args2("rev-parse", refspec))
    }

    /// The command that prints a commit's subject line; its trimmed output is the
    /// subject, and it must succeed.
    pub fn commit_subject(&self, hash: &str) -> (c: GitCommand)
        ensures
            is_git(c, self.path(), seq!["log"@, "-1"@, "--format=%s"@, hash@]),
    {
        self.git(args4("log", "-1", "--format=%s", hash))
    }
}

} // verus!

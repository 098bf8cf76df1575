use vstd::prelude::*;

verus! {

/// The status of a working-tree file, as git reports it.
#[derive(Debug, Clone, Copy, PartialEq, Eq)]
pub enum FileStatus {
    Untracked,
    Added,
    Modified,
    Deleted,
    Renamed,
    Copied,
    Unmerged,
    Both,
}

/// The one-letter code shown for a file status.
pub open spec fn file_status_letter(s: FileStatus) -> char {
    match s {
        FileStatus::Untracked => '?',
        FileStatus::Added => 'A',
        FileStatus::Modified => 'M',
        FileStatus::Deleted => 'D',
        FileStatus::Renamed => 'R',
        FileStatus::Copied => 'C',
        FileStatus::Unmerged => 'U',
        FileStatus::Both => 'B',
    }
}

impl FileStatus {
    /// The one-letter code of this status (`?`, `A`, `M`, `D`, `R`, `C`, `U`, `B`).
    pub fn letter(&self) -> (c: char)
        ensures
            c == file_status_letter(*self),
    {
        match self {
            FileStatus::Untracked => '?',
            FileStatus::Added => 'A',
            FileStatus::Modified => 'M',
            FileStatus::Deleted => 'D',
            FileStatus::Renamed => 'R',
            FileStatus::Copied => 'C',
            FileStatus::Unmerged => 'U',
            FileStatus::Both => 'B',
        }
    }
}

/// A file with changes in the working tree or the index.
#[derive(Debug, Clone)]
pub struct File {
    pub name: String,
    pub display_name: String,
    pub status: FileStatus,
    pub has_staged_changes: bool,
    pub has_unstaged_changes: bool,
    pub git_tracked: bool,
    pub added: bool,
    pub deleted: bool,
    pub has_merge_conflicts: bool,
    pub short_status: String,
}

impl File {
    /// Whether git tracks this file.
    pub fn is_tracked(&self) -> (b: bool)
        ensures
            b == self.git_tracked,
    {
        self.git_tracked
    }

    /// Whether the file has staged or unstaged changes.
    pub fn has_any_changes(&self) -> (b: bool)
        ensures
            b == (self.has_staged_changes || self.has_unstaged_changes),
    {
        self.has_staged_changes || self.has_unstaged_changes
    }
}

/// How a file changed in a commit.
#[derive(Debug, Clone, Copy, PartialEq, Eq)]
pub enum FileChangeStatus {
    Added,
    Modified,
    Deleted,
    Renamed,
    Copied,
    Unmerged,
}

/// A file touched by a commit.
#[derive(Debug, Clone)]
pub struct CommitFile {
    pub name: String,
    pub status: FileChangeStatus,
}

/// Whether a commit has been pushed to the upstream branch.
#[derive(Debug, Clone, Copy, PartialEq, Eq)]
pub enum CommitStatus {
    Unpushed,
    Pushed,
}

/// How a commit relates to a diverged upstream.
#[derive(Debug, Clone, Copy, PartialEq, Eq)]
pub enum Divergence {
    NotDiverged,
}

/// A commit as shown in the commit list.
#[derive(Debug, Clone)]
pub struct Commit {
    pub hash: String,
    pub name: String,
    pub status: CommitStatus,
    pub action: String,
    pub tags: Vec<String>,
    pub refs: Vec<String>,
    pub extra_info: String,
    pub author_name: String,
    pub author_email: String,
    pub unix_timestamp: i64,
    pub parents: Vec<String>,
    pub divergence: Divergence,
}

/// A tag.
#[derive(Debug, Clone)]
pub struct Tag {
    pub name: String,
    pub hash: String,
    pub message: String,
}

/// A branch of a remote.
#[derive(Debug, Clone)]
pub struct RemoteBranch {
    pub name: String,
    pub remote_name: String,
    pub hash: String,
}

/// A remote with its URLs and branches.
#[derive(Debug, Clone)]
pub struct Remote {
    pub name: String,
    pub urls: Vec<String>,
    pub branches: Vec<RemoteBranch>,
}

/// A worktree of the repository.
#[derive(Debug, Clone)]
pub struct Worktree {
    pub path: String,
    pub branch: String,
    pub hash: String,
    pub is_current: bool,
    pub is_main: bool,
}

/// The views of a sequence of strings.
pub open spec fn strs(v: Seq<String>) -> Seq<Seq<char>> {
    v.map_values(|s: String| s@)
}

/// A copy of a list of strings.
pub fn clone_strings(v: &Vec<String>) -> (out: Vec<String>)
    ensures
        strs(out@) == strs(v@),
{
    let mut out: Vec<String> = Vec::new();
    let mut i: usize = 0;
    while i < v.len()
        invariant
            i <= v.len(),
            strs(out@) == strs(v@).take(i as int),
        decreases v.len() - i,
    {
        let ghost prev = out@;
        let x = v[i].clone();
        proof {
            assert(x@ == v@[i as int]@);
        }
        out.push(x);
        proof {
            assert(out@ == prev.push(x));
            assert(strs(out@) == strs(prev).push(x@));
            assert(strs(out@) =~= strs(v@).take(i + 1));
        }
        i = i + 1;
    }
    proof {
        assert(strs(v@).take(v@.len() as int) == strs(v@));
    }
    out
}

/// All repository data loaded from git.
pub struct Model {
    pub repo_name: String,
    pub head_hash: String,
    pub files: Vec<File>,
    pub commits: Vec<Commit>,
    pub commits_revision: u64,
    pub sub_commits: Vec<Commit>,
    pub sub_commits_revision: u64,
    pub remotes: Vec<Remote>,
    pub tags: Vec<Tag>,
    pub worktrees: Vec<Worktree>,
    pub reflog_commits: Vec<Commit>,
    pub commit_files: Vec<CommitFile>,
    pub total_additions: usize,
    pub total_deletions: usize,
    pub is_rebasing: bool,
    pub is_merging: bool,
    pub is_cherry_picking: bool,
    pub is_bisecting: bool,
    pub head_branch_name: String,
    pub rebase_onto_hash: String,
    pub repo_url: String,
    /// Authors and their commit counts.
    pub contributors: Vec<(String, usize)>,
}

impl Model {
    /// An empty model.
    pub fn new() -> (m: Model)
        ensures
            m.files@.len() == 0,
            m.commits@.len() == 0,
            m.sub_commits@.len() == 0,
            m.commits_revision == 0,
            m.sub_commits_revision == 0,
            m.repo_name@.len() == 0,
            m.head_hash@.len() == 0,
    {
        Model {
            repo_name: String::new(),
            head_hash: String::new(),
            files: Vec::new(),
            commits: Vec::new(),
            commits_revision: 0,
            sub_commits: Vec::new(),
            sub_commits_revision: 0,
            remotes: Vec::new(),
            tags: Vec::new(),
            worktrees: Vec::new(),
            reflog_commits: Vec::new(),
            commit_files: Vec::new(),
            total_additions: 0,
            total_deletions: 0,
            is_rebasing: false,
            is_merging: false,
            is_cherry_picking: false,
            is_bisecting: false,
            head_branch_name: String::new(),
            rebase_onto_hash: String::new(),
            repo_url: String::new(),
            contributors: Vec::new(),
        }
    }
}

} // verus!

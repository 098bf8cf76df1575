use vstd::prelude::*;

use crate::git::{args3, args4, args5, args6, is_git, join_path, path_join, git_in, CmdOutput, GitCommand, GitCommands, GitError};
use crate::model::{strs, Worktree};
use crate::text::{
    cat, cat3, chars_eq, chars_of, has_prefix, lines_of, owned, replace_char, replace_char_exec,
    slice_vec, split_lines, string_of, strip_prefix, trim, trim_char, trim_char_exec, trim_end_char,
    trim_end_char_exec, trim_exec,
};

verus! {

/// What has been read of `git worktree list --porcelain` output: the finished entries
/// (path, branch, hash), then the path, branch and hash of the entry being read and
/// whether it is bare.
pub type WorktreeScan = (Seq<(Seq<char>, Seq<char>, Seq<char>)>, Seq<char>, Seq<char>, Seq<char>, bool);

/// The entries with the one being read added, unless it has no path or is bare.
pub open spec fn finish_entry(st: WorktreeScan) -> Seq<(Seq<char>, Seq<char>, Seq<char>)> {
    if st.1.len() > 0 && !st.4 {
        st.0.push((st.1, st.2, st.3))
    } else {
        st.0
    }
}

/// Reads one line of porcelain worktree output: `worktree <path>` starts an entry,
/// `HEAD <hash>`, `branch <ref>` (without `refs/heads/`), `bare` and `detached` describe
/// it; other lines are ignored.
pub open spec fn worktree_line(st: WorktreeScan, l: Seq<char>) -> WorktreeScan {
    if has_prefix(l, "worktree "@) {
        (finish_entry(st), l.skip(9), seq![], seq![], false)
    } else if has_prefix(l, "HEAD "@) {
        (st.0, st.1, st.2, l.skip(5), st.4)
    } else if has_prefix(l, "branch "@) {
        let b = l.skip(7);
        let name = if has_prefix(b, "refs/heads/"@) {
            b.skip(11)
        } else {
            b
        };
        (st.0, st.1, name, st.3, st.4)
    } else if l == "bare"@ {
        (st.0, st.1, st.2, st.3, true)
    } else if l == "detached"@ {
        (st.0, st.1, "(detached)"@, st.3, st.4)
    } else {
        st
    }
}

/// The scan of all `lines`.
pub open spec fn worktree_scan(lines: Seq<Seq<char>>) -> WorktreeScan
    decreases lines.len(),
{
    if lines.len() == 0 {
        (seq![], seq![], seq![], seq![], false)
    } else {
        worktree_line(worktree_scan(lines.drop_last()), lines.last())
    }
}

/// The worktrees listed by porcelain output, as (path, branch, hash); bare entries are
/// left out.
pub open spec fn worktree_entries(lines: Seq<Seq<char>>) -> Seq<(Seq<char>, Seq<char>, Seq<char>)> {
    finish_entry(worktree_scan(lines))
}

/// Reads the output of `load_worktrees`: nothing when git failed, else the listed
/// worktrees; the first is the main one, and the one at `repo_path` is current.
pub fn parse_worktrees(out: &CmdOutput, repo_path: &str) -> (r: Vec<Worktree>)
    ensures
        !out.success ==> r@.len() == 0,
        out.success ==> {
            let es = worktree_entries(lines_of(out.stdout@));
            &&& r@.len() == es.len()
            &&& forall|k: int| 0 <= k < r@.len() ==> {
                &&& (#[trigger] r@[k]).path@ == es[k].0
                &&& r@[k].branch@ == es[k].1
                &&& r@[k].hash@ == es[k].2
                &&& r@[k].is_main == (k == 0)
                &&& r@[k].is_current == (es[k].0 == repo_path@)
            }
        },
{
    let mut r: Vec<Worktree> = Vec::new();
    if !out.success {
        return r;
    }
    let text = chars_of(out.stdout.as_str());
    let lines = split_lines(&text);
    let ghost lv = lines@.map_values(|v: Vec<char>| v@);
    let p_wt = chars_of("worktree ");
    let p_head = chars_of("HEAD ");
    let p_branch = chars_of("branch ");
    let p_heads = chars_of("refs/heads/");
    let w_bare = chars_of("bare");
    let w_detached = chars_of("detached");
    let repo = chars_of(repo_path);
    proof {
        reveal_strlit("worktree ");
        reveal_strlit("HEAD ");
        reveal_strlit("branch ");
        reveal_strlit("refs/heads/");
    }
    let mut path: Vec<char> = Vec::new();
    let mut branch: Vec<char> = Vec::new();
    let mut hash: Vec<char> = Vec::new();
    let mut is_bare = false;
    let mut i: usize = 0;
    while i < lines.len()
        invariant
            i <= lines.len(),
            lv == lines@.map_values(|v: Vec<char>| v@),
            p_wt@ == "worktree "@,
            p_head@ == "HEAD "@,
            p_branch@ == "branch "@,
            p_heads@ == "refs/heads/"@,
            w_bare@ == "bare"@,
            w_detached@ == "detached"@,
            repo@ == repo_path@,
            "worktree "@.len() == 9,
            "HEAD "@.len() == 5,
            "branch "@.len() == 7,
            "refs/heads/"@.len() == 11,
            ({
                let st = worktree_scan(lv.take(i as int));
                &&& r@.len() == st.0.len()
                &&& forall|k: int| 0 <= k < r@.len() ==> {
                    &&& (#[trigger] r@[k]).path@ == st.0[k].0
                    &&& r@[k].branch@ == st.0[k].1
                    &&& r@[k].hash@ == st.0[k].2
                    &&& r@[k].is_main == (k == 0)
                    &&& r@[k].is_current == (st.0[k].0 == repo_path@)
                }
                &&& path@ == st.1
                &&& branch@ == st.2
                &&& hash@ == st.3
                &&& is_bare == st.4
            }),
        decreases lines.len() - i,
    {
        proof {
            assert(lv.take(i + 1).drop_last() == lv.take(i as int));
            assert(lv.take(i + 1).last() == lines@[i as int]@);
        }
        let line = &lines[i];
        match strip_prefix(line, &p_wt) {
            Some(p) => {
                if path.len() > 0 && !is_bare {
                    let is_main = r.len() == 0;
                    let is_current = chars_eq(&path, &repo);
                    let w = Worktree {
                        path: string_of(&path),
                        branch: string_of(&branch),
                        hash: string_of(&hash),
                        is_current,
                        is_main,
                    };
                    r.push(w);
                }
                path = p;
                branch = Vec::new();
                hash = Vec::new();
                is_bare = false;
            },
            None => match strip_prefix(line, &p_head) {
                Some(h) => {
                    hash = h;
                },
                None => match strip_prefix(line, &p_branch) {
                    Some(b) => {
                        branch = match strip_prefix(&b, &p_heads) {
                            Some(n) => n,
                            None => b,
                        };
                    },
                    None => {
                        if chars_eq(line, &w_bare) {
                            is_bare = true;
                        } else if chars_eq(line, &w_detached) {
                            branch = chars_of("(detached)");
                        }
                    },
                },
            },
        }
        i = i + 1;
    }
    proof {
        assert(lv.take(lv.len() as int) == lv);
    }
    if path.len() > 0 && !is_bare {
        let is_main = r.len() == 0;
        let is_current = chars_eq(&path, &repo);
        let w = Worktree {
            path: string_of(&path),
            branch: string_of(&branch),
            hash: string_of(&hash),
            is_current,
            is_main,
        };
        r.push(w);
    }
    r
}

/// Index of the last occurrence of `c` in `s`, or -1.
pub open spec fn last_index_of(s: Seq<char>, c: char) -> int
    decreases s.len(),
{
    if s.len() == 0 {
        -1
    } else if s.last() == c {
        s.len() - 1
    } else {
        last_index_of(s.drop_last(), c)
    }
}

/// The parent directory of a `/`-separated canonical path (std's `Path::parent`): none
/// for the root and the empty path, empty for a single relative component.
pub open spec fn path_parent(p: Seq<char>) -> Option<Seq<char>> {
    let t = trim_end_char(p, '/');
    if t.len() == 0 {
        None
    } else {
        let i = last_index_of(t, '/');
        if i < 0 {
            Some(seq![])
        } else {
            let q = trim_end_char(t.take(i), '/');
            if q.len() == 0 {
                Some("/"@)
            } else {
                Some(q)
            }
        }
    }
}

/// The parent directory of a path.
pub fn parent_path(p: &str) -> (r: Option<String>)
    ensures
        match r {
            Some(s) => path_parent(p@) == Some(s@),
            None => path_parent(p@) is None,
        },
{
    let v = chars_of(p);
    let t = trim_end_char_exec(&v, '/');
    if t.len() == 0 {
        return None;
    }
    let mut j: usize = t.len();
    proof {
        assert(t@.take(t@.len() as int) == t@);
    }
    while j > 0 && t[j - 1] != '/'
        invariant
            j <= t.len(),
            last_index_of(t@, '/') == last_index_of(t@.take(j as int), '/'),
        decreases j,
    {
        proof {
            assert(t@.take(j as int).drop_last() == t@.take(j - 1));
        }
        j = j - 1;
    }
    proof {
        assert(t@.take(t@.len() as int) == t@);
    }
    if j == 0 {
        proof {
            assert(t@.take(0).len() == 0);
        }
        return Some(String::new());
    }
    proof {
        assert(t@.take(j as int).last() == '/');
        assert(last_index_of(t@, '/') == j - 1);
    }
    let head = slice_vec(&t, 0, j - 1);
    let q = trim_end_char_exec(&head, '/');
    if q.len() == 0 {
        proof {
            reveal_strlit("/");
        }
        Some(owned("/"))
    } else {
        Some(string_of(&q))
    }
}

/// A branch name cleaned for use as a worktree: trimmed, without leading or trailing
/// slashes.
pub open spec fn clean_branch(branch: Seq<char>) -> Seq<char> {
    trim_char(trim(branch), '/')
}

/// The folder of a sibling worktree for a branch: the cleaned name with slashes turned
/// into dashes, next to the repository (inside it when it has no parent).
pub open spec fn sibling_path(repo: Seq<char>, branch: Seq<char>) -> Seq<char> {
    let folder = replace_char(clean_branch(branch), '/', '-');
    match path_parent(repo) {
        Some(parent) => path_join(parent, folder),
        None => path_join(repo, folder),
    }
}

/// Cleans a branch name for a new worktree; an error when nothing is left.
pub fn worktree_branch(branch: &str) -> (r: Result<String, GitError>)
    ensures
        r matches Ok(b) ==> b@ == clean_branch(branch@) && b@.len() > 0,
        r is Err <==> clean_branch(branch@).len() == 0,
        r matches Err(e) ==> e is EmptyBranchName,
{
    let v = chars_of(branch);
    let t = trim_exec(&v);
    let c = trim_char_exec(&t, '/');
    if c.len() == 0 {
        Err(GitError::EmptyBranchName)
    } else {
        Ok(string_of(&c))
    }
}

impl GitCommands {
    /// The command listing the worktrees (`git worktree list --porcelain`).
    pub fn load_worktrees(&self) -> (c: GitCommand)
        ensures
            is_git(c, self.path(), seq!["worktree"@, "list"@, "--porcelain"@]),
    {
        self.git(args3("worktree", "list", "--porcelain"))
    }

    /// The path of a worktree for `branch_name` next to the repository.
    pub fn resolve_worktree_sibling_path(&self, branch_name: &str) -> (p: String)
        ensures
            p@ == sibling_path(self.path(), branch_name@),
    {
        let v = chars_of(branch_name);
        let t = trim_exec(&v);
        let clean = trim_char_exec(&t, '/');
        let folder_v = replace_char_exec(&clean, '/', '-');
        let folder = string_of(&folder_v);
        match parent_path(self.repo_path()) {
            Some(parent) => join_path(parent.as_str(), folder.as_str()),
            None => join_path(self.repo_path(), folder.as_str()),
        }
    }

    /// The command checking whether local branch `branch` exists; it does exactly when
    /// the command succeeds.
    pub fn branch_exists(&self, branch: &str) -> (c: GitCommand)
        ensures
            is_git(c, self.path(), seq!["show-ref"@, "--verify"@, "--quiet"@, "refs/heads/"@ + branch@]),
    {
        let r = cat("refs/heads/", branch);
        self.git(args4("show-ref", "--verify", "--quiet", r.as_str()))
    }

    /// The commands adding a worktree at `target` for the cleaned `branch`: for an
    /// existing branch, a checkout of it; for a new one, its creation from `base` (HEAD
    /// when none), then, run inside the new worktree with its outcome ignored, the
    /// setting of `branch.<branch>.base` to that base.  The first command must succeed.
    pub fn add_worktree_commands(&self, branch: &str, base: Option<&str>, target: &str, branch_exists: bool) -> (r: (
        GitCommand,
        Option<GitCommand>,
    ))
        ensures
            branch_exists ==> is_git(r.0, self.path(), seq!["worktree"@, "add"@, target@, branch@]) && r.1 is None,
            !branch_exists ==> {
                let base_ref = match base {
                    Some(b) => b@,
                    None => "HEAD"@,
                };
                &&& is_git(r.0, self.path(), seq!["worktree"@, "add"@, "-b"@, branch@, target@, base_ref])
                &&& r.1 matches Some(c) && is_git(c, target@, seq!["config"@, "branch."@ + branch@ + ".base"@, base_ref])
            },
    {
        if branch_exists {
            (self.git(args4("worktree", "add", target, branch)), None)
        } else {
            let base_ref: &str = match base {
                Some(b) => b,
                None => "HEAD",
            };
            let add = self.git(args6("worktree", "add", "-b", branch, target, base_ref));
            let key = cat3("branch.", branch, ".base");
            let config = git_in(target, args3("config", key.as_str(), base_ref));
            (add, Some(config))
        }
    }

    /// The command adding a worktree at `path` for the existing `branch`; it must succeed.
    pub fn create_worktree(&self, path: &str, branch: &str) -> (c: GitCommand)
        ensures
            is_git(c, self.path(), seq!["worktree"@, "add"@, path@, branch@]),
    {
        self.git(args4("worktree", "add", path, branch))
    }

    /// The command adding a worktree at `path` on the new branch `new_branch`; it must
    /// succeed.
    pub fn create_worktree_new_branch(&self, path: &str, new_branch: &str) -> (c: GitCommand)
        ensures
            is_git(c, self.path(), seq!["worktree"@, "add"@, "-b"@, new_branch@, path@]),
    {
        self.git(args5("worktree", "add", "-b", new_branch, path))
    }

    /// The command removing the worktree at `path`, forced when asked; it must succeed.
    pub fn remove_worktree(&self, path: &str, force: bool) -> (c: GitCommand)
        ensures
            force ==> is_git(c, self.path(), seq!["worktree"@, "remove"@, path@, "--force"@]),
            !force ==> is_git(c, self.path(), seq!["worktree"@, "remove"@, path@]),
    {
        if force {
            self.git(args4("worktree", "remove", path, "--force"))
        } else {
            self.git(args3("worktree", "remove", path))
        }
    }
}

} // verus!

use vstd::prelude::*;

use crate::git::{args2, args3, args4, is_git, join_path, path_join, CmdOutput, GitCommand, GitCommands};
use crate::model::strs;
use crate::text::{
    all_digits, cat, chars_of, contains_exec, contains_seq, digits_val, lines_of, parse_nat,
    parse_usize, split_at_char, split_char, split_lines, split_words, string_of, trim, trim_exec,
    words,
};

verus! {

/// The first word of `p` read as a `usize`, if it is one.
pub open spec fn first_word_count(p: Seq<char>) -> Option<nat> {
    let w = words(p);
    if w.len() == 0 {
        None
    } else {
        match parse_nat(w[0]) {
            Some(v) => if v <= usize::MAX {
                Some(v)
            } else {
                None
            },
            None => None,
        }
    }
}

/// Insertions and deletions read from the comma-separated pieces of a
/// `git diff --shortstat` line; a later count replaces an earlier one.
pub open spec fn stat_from(parts: Seq<Seq<char>>) -> (nat, nat)
    decreases parts.len(),
{
    if parts.len() == 0 {
        (0, 0)
    } else {
        let (a, d) = stat_from(parts.drop_last());
        let p = trim(parts.last());
        if contains_seq(p, "insertion"@) {
            match first_word_count(p) {
                Some(n) => (n, d),
                None => (a, d),
            }
        } else if contains_seq(p, "deletion"@) {
            match first_word_count(p) {
                Some(n) => (a, n),
                None => (a, d),
            }
        } else {
            (a, d)
        }
    }
}

/// The insertions and deletions of a `git diff --shortstat` summary such as
/// ` 3 files changed, 10 insertions(+), 2 deletions(-)`.
pub open spec fn shortstat(s: Seq<char>) -> (nat, nat) {
    stat_from(split_char(s, ','))
}

/// The first word of `p` read as a `usize`.
fn first_word_usize(p: &[char]) -> (r: Option<usize>)
    ensures
        match r {
            Some(n) => first_word_count(p@) == Some(n as nat),
            None => first_word_count(p@) is None,
        },
{
    let w = split_words(p);
    proof {
        assert(w@.len() == words(p@).len());
    }
    if w.len() == 0 {
        return None;
    }
    proof {
        assert(w@[0]@ == words(p@)[0]);
    }
    parse_usize(&w[0])
}

/// Reads insertions and deletions from a `git diff --shortstat` summary.
pub fn parse_stat(s: &str) -> (r: (usize, usize))
    ensures
        (r.0 as nat, r.1 as nat) == shortstat(s@),
{
    let text = chars_of(s);
    let parts = split_at_char(&text, ',');
    let ghost pv = parts@.map_values(|v: Vec<char>| v@);
    let ins = chars_of("insertion");
    let del = chars_of("deletion");
    let mut added: usize = 0;
    let mut deleted: usize = 0;
    let mut i: usize = 0;
    while i < parts.len()
        invariant
            i <= parts.len(),
            pv == parts@.map_values(|v: Vec<char>| v@),
            ins@ == "insertion"@,
            del@ == "deletion"@,
            (added as nat, deleted as nat) == stat_from(pv.take(i as int)),
        decreases parts.len() - i,
    {
        let p = trim_exec(&parts[i]);
        proof {
            assert(pv.take(i + 1).drop_last() == pv.take(i as int));
            assert(pv.take(i + 1).last() == parts@[i as int]@);
        }
        if contains_exec(&p, &ins) {
            match first_word_usize(&p) {
                Some(n) => {
                    added = n;
                },
                None => {},
            }
        } else if contains_exec(&p, &del) {
            match first_word_usize(&p) {
                Some(n) => {
                    deleted = n;
                },
                None => {},
            }
        }
        i = i + 1;
    }
    proof {
        assert(pv.take(pv.len() as int) == pv);
    }
    (added, deleted)
}

/// The total insertions and deletions of the working tree: unstaged and staged changes,
/// with every line of the untracked files counted as inserted.
pub fn diff_shortstat(unstaged: &CmdOutput, staged: &CmdOutput, untracked_lines: usize) -> (r: (usize, usize))
    requires
        shortstat(unstaged.stdout@).0 + shortstat(staged.stdout@).0 + untracked_lines <= usize::MAX,
        shortstat(unstaged.stdout@).1 + shortstat(staged.stdout@).1 <= usize::MAX,
    ensures
        r.0 == shortstat(unstaged.stdout@).0 + shortstat(staged.stdout@).0 + untracked_lines,
        r.1 == shortstat(unstaged.stdout@).1 + shortstat(staged.stdout@).1,
{
    let (a1, d1) = parse_stat(unstaged.stdout.as_str());
    let (a2, d2) = parse_stat(staged.stdout.as_str());
    (a1 + a2 + untracked_lines, d1 + d2)
}

/// The number of lines of a text.
pub fn count_lines(content: &str) -> (n: usize)
    ensures
        n == lines_of(content@).len(),
{
    let text = chars_of(content);
    let lines = split_lines(&text);
    proof {
        assert(lines@.map_values(|v: Vec<char>| v@).len() == lines@.len());
    }
    lines.len()
}

/// The non-empty lines of `git ls-files` output.
pub open spec fn nonempty_lines(lines: Seq<Seq<char>>) -> Seq<Seq<char>>
    decreases lines.len(),
{
    if lines.len() == 0 {
        seq![]
    } else if lines.last().len() == 0 {
        nonempty_lines(lines.drop_last())
    } else {
        nonempty_lines(lines.drop_last()).push(lines.last())
    }
}

/// The untracked files listed by `untracked_files`.
pub fn parse_untracked_files(out: &CmdOutput) -> (r: Vec<String>)
    ensures
        strs(r@) == nonempty_lines(lines_of(out.stdout@)),
{
    let text = chars_of(out.stdout.as_str());
    let lines = split_lines(&text);
    let ghost lv = lines@.map_values(|v: Vec<char>| v@);
    let mut r: Vec<String> = Vec::new();
    let mut i: usize = 0;
    proof {
        assert(strs(r@) =~= Seq::<Seq<char>>::empty());
    }
    while i < lines.len()
        invariant
            i <= lines.len(),
            lv == lines@.map_values(|v: Vec<char>| v@),
            strs(r@) == nonempty_lines(lv.take(i as int)),
        decreases lines.len() - i,
    {
        proof {
            assert(lv.take(i + 1).drop_last() == lv.take(i as int));
            assert(lv.take(i + 1).last() == lines@[i as int]@);
        }
        if lines[i].len() > 0 {
            let ghost before = r@;
            let s = string_of(&lines[i]);
            r.push(s);
            proof {
                assert(strs(r@) == strs(before).push(s@));
            }
        }
        i = i + 1;
    }
    proof {
        assert(lv.take(lv.len() as int) == lv);
    }
    r
}

impl GitCommands {
    /// The command printing the unstaged diff of `path`; its output is the diff, and it
    /// must succeed.
    pub fn diff_file(&self, path: &str) -> (c: GitCommand)
        ensures
            is_git(c, self.path(), seq!["diff"@, "--color=never"@, "--"@, path@]),
    {
        self.git(args4("diff", "--color=never", "--", path))
    }

    /// The command printing the staged diff of `path`; its output is the diff, and it
    /// must succeed.
    pub fn diff_file_staged(&self, path: &str) -> (c: GitCommand)
        ensures
            is_git(c, self.path(), seq!["diff"@, "--cached"@, "--color=never"@, "--"@, path@]),
    {
        self.git(crate::git::args5("diff", "--cached", "--color=never", "--", path))
    }

    /// The command printing the whole staged diff; its output is the diff, and it must
    /// succeed.
    pub fn diff_staged(&self) -> (c: GitCommand)
        ensures
            is_git(c, self.path(), seq!["diff"@, "--cached"@, "--color=never"@]),
    {
        self.git(args3("diff", "--cached", "--color=never"))
    }

    /// The command printing the diff of commit `hash`; its output is the diff, and it
    /// must succeed.
    pub fn diff_commit(&self, hash: &str) -> (c: GitCommand)
        ensures
            is_git(c, self.path(), seq!["show"@, "--color=never"@, "--format="@, hash@]),
    {
        self.git(args4("show", "--color=never", "--format=", hash))
    }

    /// The command printing `path` as of commit `hash`; its output is the content when
    /// it succeeds, and the content is empty otherwise.
    pub fn file_content_at_commit(&self, hash: &str, path: &str) -> (c: GitCommand)
        ensures
            is_git(c, self.path(), seq!["show"@, hash@ + ":"@ + path@]),
    {
        let spec = crate::text::cat3(hash, ":", path);
        self.git(args2("show", spec.as_str()))
    }

    /// Where the working-tree copy of `path` lies.
    pub fn file_content(&self, path: &str) -> (p: String)
        ensures
            p@ == path_join(self.path(), path@),
    {
        join_path(self.repo_path(), path)
    }

    /// The command printing the staged copy of `path`; its output is the content when
    /// it succeeds, and the content is empty otherwise.
    pub fn file_content_staged(&self, path: &str) -> (c: GitCommand)
        ensures
            is_git(c, self.path(), seq!["show"@, ":"@ + path@]),
    {
        let spec = cat(":", path);
        self.git(args2("show", spec.as_str()))
    }

    /// The command summarising the unstaged changes.
    pub fn diff_shortstat_unstaged(&self) -> (c: GitCommand)
        ensures
            is_git(c, self.path(), seq!["diff"@, "--shortstat"@]),
    {
        self.git(args2("diff", "--shortstat"))
    }

    /// The command summarising the staged changes.
    pub fn diff_shortstat_staged(&self) -> (c: GitCommand)
        ensures
            is_git(c, self.path(), seq!["diff"@, "--cached"@, "--shortstat"@]),
    {
        self.git(args3("diff", "--cached", "--shortstat"))
    }

    /// The command listing the untracked files that are not ignored.
    pub fn untracked_files(&self) -> (c: GitCommand)
        ensures
            is_git(c, self.path(), seq!["ls-files"@, "--others"@, "--exclude-standard"@]),
    {
        self.git(args3("ls-files", "--others", "--exclude-standard"))
    }
}

} // verus!

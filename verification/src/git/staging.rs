use vstd::prelude::*;

use crate::git::{args4, args5, is_git, CmdOutput, GitCommand, GitCommands, GitError};
use crate::git::commit::strings_of;
use crate::model::strs;
use crate::text::{
    chars_of, has_prefix, index_of, lines_of, owned, parse_nat, parse_usize, slice_vec, split_lines,
    split_words, starts_with, string_of, words,
};

verus! {

/// A hunk of a diff: its header, the ranges the header names, and its lines (the header
/// first).
#[derive(Debug, Clone)]
pub struct DiffHunk {
    pub header: String,
    pub old_start: usize,
    pub old_count: usize,
    pub new_start: usize,
    pub new_count: usize,
    pub lines: Vec<String>,
}

/// Whether a diff line starts a hunk.
pub open spec fn is_hunk_start(l: Seq<char>) -> bool {
    has_prefix(l, "@@"@)
}

/// The hunks found so far in a diff and the hunk still being read.
pub open spec fn hunk_groups_state(lines: Seq<Seq<char>>) -> (Seq<Seq<Seq<char>>>, Option<Seq<Seq<char>>>)
    decreases lines.len(),
{
    if lines.len() == 0 {
        (seq![], None)
    } else {
        let (done, cur) = hunk_groups_state(lines.drop_last());
        let l = lines.last();
        if is_hunk_start(l) {
            (match cur {
                Some(c) => done.push(c),
                None => done,
            }, Some(seq![l]))
        } else {
            (done, match cur {
                Some(c) => Some(c.push(l)),
                None => None,
            })
        }
    }
}

/// The hunks of a diff's lines: each line starting with `@@` begins a hunk that runs up
/// to the next such line; lines before the first hunk belong to none.
pub open spec fn hunk_groups(lines: Seq<Seq<char>>) -> Seq<Seq<Seq<char>>> {
    let (done, cur) = hunk_groups_state(lines);
    match cur {
        Some(c) => done.push(c),
        None => done,
    }
}

/// The lines from the first one that begins a hunk on; none when no line does.
pub open spec fn from_first_hunk(lines: Seq<Seq<char>>) -> Seq<Seq<char>>
    decreases lines.len(),
{
    if lines.len() == 0 {
        seq![]
    } else {
        let p = from_first_hunk(lines.drop_last());
        if p.len() > 0 || is_hunk_start(lines.last()) {
            p.push(lines.last())
        } else {
            seq![]
        }
    }
}

/// `g` is one hunk's lines: a line that begins a hunk, then lines that do not.
pub open spec fn one_hunk(g: Seq<Seq<char>>) -> bool {
    &&& g.len() > 0
    &&& is_hunk_start(g[0])
    &&& forall|j: int| 1 <= j < g.len() ==> !is_hunk_start(#[trigger] g[j])
}

proof fn lemma_hunk_groups_state(lines: Seq<Seq<char>>)
    ensures
        ({
            let (done, cur) = hunk_groups_state(lines);
            &&& (cur is None <==> from_first_hunk(lines).len() == 0)
            &&& done.flatten() + (match cur {
                Some(c) => c,
                None => seq![],
            }) == from_first_hunk(lines)
            &&& forall|k: int| 0 <= k < done.len() ==> one_hunk(#[trigger] done[k])
            &&& (cur matches Some(c) ==> one_hunk(c))
        }),
    decreases lines.len(),
{
    if lines.len() > 0 {
        let prev = lines.drop_last();
        lemma_hunk_groups_state(prev);
        let (d0, c0) = hunk_groups_state(prev);
        let l = lines.last();
        if is_hunk_start(l) {
            match c0 {
                Some(c) => {
                    d0.lemma_flatten_push(c);
                    assert(d0.push(c).flatten() + seq![l] == from_first_hunk(lines));
                },
                None => {
                    assert(from_first_hunk(prev) == Seq::<Seq<char>>::empty());
                    assert(d0.flatten() + seq![l] == from_first_hunk(lines));
                },
            }
        } else {
            match c0 {
                Some(c) => {
                    assert(d0.flatten() + c.push(l) == (d0.flatten() + c).push(l));
                    assert forall|j: int| 1 <= j < c.push(l).len() implies !is_hunk_start(#[trigger] c.push(l)[j]) by {
                        if j < c.len() {
                            assert(c.push(l)[j] == c[j]);
                        }
                    }
                },
                None => {
                    assert(d0.flatten() + Seq::<Seq<char>>::empty() == d0.flatten());
                },
            }
        }
    }
}

/// Put back together, the hunks of a diff's lines give its lines from the first hunk
/// header on, in order; each hunk is one header line and the lines up to the next one.
pub proof fn lemma_hunks_concatenate(lines: Seq<Seq<char>>)
    ensures
        hunk_groups(lines).flatten() == from_first_hunk(lines),
        forall|k: int| 0 <= k < hunk_groups(lines).len() ==> one_hunk(#[trigger] hunk_groups(lines)[k]),
{
    lemma_hunk_groups_state(lines);
    let (done, cur) = hunk_groups_state(lines);
    match cur {
        Some(c) => {
            done.lemma_flatten_push(c);
        },
        None => {
            assert(done.flatten() + Seq::<Seq<char>>::empty() == done.flatten());
        },
    }
}

/// `s` without its leading `-` and `+` characters.
pub open spec fn strip_signs(s: Seq<char>) -> Seq<char>
    decreases s.len(),
{
    if s.len() > 0 && (s[0] == '-' || s[0] == '+') {
        strip_signs(s.drop_first())
    } else {
        s
    }
}

/// `s` read as a `usize`, or `d`.
pub open spec fn usize_or(s: Seq<char>, d: nat) -> nat {
    match parse_nat(s) {
        Some(v) => if v <= usize::MAX {
            v
        } else {
            d
        },
        None => d,
    }
}

/// The start and count of a hunk range such as `-12,5`: count 1 when absent, and 1 for
/// any number that cannot be read.
pub open spec fn range_of(s: Seq<char>) -> (nat, nat) {
    let t = strip_signs(s);
    let i = index_of(t, ',');
    if i < 0 {
        (usize_or(t, 1), 1)
    } else {
        (usize_or(t.take(i), 1), usize_or(t.skip(i + 1), 1))
    }
}

/// The ranges named by a hunk header `@@ -old_start,old_count +new_start,new_count @@`;
/// (1, 0) for a missing range.
pub open spec fn hunk_header(h: Seq<char>) -> (nat, nat, nat, nat) {
    let w = words(h);
    let (os, oc) = if w.len() > 1 {
        range_of(w[1])
    } else {
        (1, 0)
    };
    let (ns, nc) = if w.len() > 2 {
        range_of(w[2])
    } else {
        (1, 0)
    };
    (os, oc, ns, nc)
}

/// Whether `h` is the hunk made of `group`.
pub open spec fn hunk_from_group(h: DiffHunk, group: Seq<Seq<char>>) -> bool {
    &&& strs(h.lines@) == group
    &&& h.header@ == group[0]
    &&& (h.old_start as nat, h.old_count as nat, h.new_start as nat, h.new_count as nat) == hunk_header(group[0])
}

/// `s` read as a `usize`, or `d`.
fn usize_or_exec(s: &[char], d: usize) -> (r: usize)
    ensures
        r == usize_or(s@, d as nat),
{
    match parse_usize(s) {
        Some(v) => v,
        None => d,
    }
}

/// Reads a hunk range.
fn parse_range(s: &[char]) -> (r: (usize, usize))
    ensures
        (r.0 as nat, r.1 as nat) == range_of(s@),
{
    let mut i: usize = 0;
    proof {
        assert(s@.skip(0) == s@);
    }
    while i < s.len() && (s[i] == '-' || s[i] == '+')
        invariant
            i <= s.len(),
            strip_signs(s@) == strip_signs(s@.skip(i as int)),
        decreases s.len() - i,
    {
        proof {
            assert(s@.skip(i as int).drop_first() == s@.skip(i + 1));
        }
        i = i + 1;
    }
    let t = slice_vec(s, i, s.len());
    proof {
        assert(t@ == s@.skip(i as int));
        assert(strip_signs(t@) == t@);
    }
    let mut k: usize = 0;
    while k < t.len() && t[k] != ','
        invariant
            k <= t.len(),
            forall|m: int| 0 <= m < k ==> t@[m] != ',',
        decreases t.len() - k,
    {
        k = k + 1;
    }
    if k < t.len() {
        proof {
            crate::text::lemma_index_of_at(t@, ',', k as int);
        }
        let a = slice_vec(&t, 0, k);
        let b = slice_vec(&t, k + 1, t.len());
        (usize_or_exec(&a, 1), usize_or_exec(&b, 1))
    } else {
        proof {
            crate::text::lemma_index_of_none(t@, ',');
        }
        (usize_or_exec(&t, 1), 1)
    }
}

/// Reads the ranges of a hunk header.
pub fn parse_hunk_header(header: &[char]) -> (r: (usize, usize, usize, usize))
    ensures
        (r.0 as nat, r.1 as nat, r.2 as nat, r.3 as nat) == hunk_header(header@),
{
    let w = split_words(header);
    proof {
        assert(w@.len() == words(header@).len());
    }
    let (os, oc) = if w.len() > 1 {
        proof {
            assert(w@[1]@ == words(header@)[1]);
        }
        parse_range(&w[1])
    } else {
        (1, 0)
    };
    let (ns, nc) = if w.len() > 2 {
        proof {
            assert(w@[2]@ == words(header@)[2]);
        }
        parse_range(&w[2])
    } else {
        (1, 0)
    };
    (os, oc, ns, nc)
}

/// The hunk made of the lines `group`, whose first line is its header.
fn make_hunk(group: Vec<Vec<char>>) -> (h: DiffHunk)
    requires
        group@.len() > 0,
    ensures
        hunk_from_group(h, group@.map_values(|v: Vec<char>| v@)),
{
    let (os, oc, ns, nc) = parse_hunk_header(&group[0]);
    let lines = strings_of(&group);
    DiffHunk {
        header: string_of(&group[0]),
        old_start: os,
        old_count: oc,
        new_start: ns,
        new_count: nc,
        lines,
    }
}

/// Splits a diff into its hunks.
pub fn parse_diff_hunks(diff_output: &str) -> (hunks: Vec<DiffHunk>)
    ensures
        hunks@.len() == hunk_groups(lines_of(diff_output@)).len(),
        forall|k: int| 0 <= k < hunks@.len() ==> hunk_from_group(#[trigger] hunks@[k], hunk_groups(lines_of(diff_output@))[k]),
{
    let text = chars_of(diff_output);
    let lines = split_lines(&text);
    let ghost lv = lines@.map_values(|v: Vec<char>| v@);
    let at = chars_of("@@");
    let mut hunks: Vec<DiffHunk> = Vec::new();
    let mut current: Option<Vec<Vec<char>>> = None;
    let mut i: usize = 0;
    while i < lines.len()
        invariant
            i <= lines.len(),
            lv == lines@.map_values(|v: Vec<char>| v@),
            at@ == "@@"@,
            ({
                let (done, cur) = hunk_groups_state(lv.take(i as int));
                &&& hunks@.len() == done.len()
                &&& forall|k: int| 0 <= k < hunks@.len() ==> hunk_from_group(#[trigger] hunks@[k], done[k])
                &&& match current {
                    Some(c) => cur == Some(c@.map_values(|v: Vec<char>| v@)) && c@.len() > 0,
                    None => cur is None,
                }
            }),
        decreases lines.len() - i,
    {
        proof {
            assert(lv.take(i + 1).drop_last() == lv.take(i as int));
            assert(lv.take(i + 1).last() == lines@[i as int]@);
        }
        let line = slice_vec(&lines[i], 0, lines[i].len());
        proof {
            assert(lines@[i as int]@.subrange(0, lines@[i as int]@.len() as int) == lines@[i as int]@);
            assert(line@ == lv[i as int]);
        }
        if starts_with(&line, &at) {
            match current {
                Some(c) => {
                    let h = make_hunk(c);
                    hunks.push(h);
                },
                None => {},
            }
            let mut g: Vec<Vec<char>> = Vec::new();
            g.push(line);
            proof {
                assert(g@.map_values(|v: Vec<char>| v@) =~= seq![lv[i as int]]);
            }
            current = Some(g);
        } else {
            match current {
                Some(c) => {
                    let mut c = c;
                    let ghost before = c@;
                    c.push(line);
                    proof {
                        assert(c@.map_values(|v: Vec<char>| v@) == before.map_values(|v: Vec<char>| v@).push(lv[i as int]));
                    }
                    current = Some(c);
                },
                None => {},
            }
        }
        i = i + 1;
    }
    proof {
        assert(lv.take(lv.len() as int) == lv);
    }
    match current {
        Some(c) => {
            let h = make_hunk(c);
            hunks.push(h);
        },
        None => {},
    }
    hunks
}

/// The lines `ls`, each ended by a newline.
pub open spec fn joined_lines(ls: Seq<Seq<char>>) -> Seq<char>
    decreases ls.len(),
{
    if ls.len() == 0 {
        seq![]
    } else {
        joined_lines(ls.drop_last()) + ls.last() + "\n"@
    }
}

/// The patch applying one hunk to `path`.
pub open spec fn patch_text(path: Seq<char>, lines: Seq<Seq<char>>) -> Seq<char> {
    "--- a/"@ + path + "\n"@ + "+++ b/"@ + path + "\n"@ + joined_lines(lines)
}

/// The patch that applies `hunk` to `file_path`.
pub fn build_patch(file_path: &str, hunk: &DiffHunk) -> (p: String)
    ensures
        p@ == patch_text(file_path@, strs(hunk.lines@)),
{
    let mut p = String::from_str("--- a/");
    p.append(file_path);
    p.append("\n");
    p.append("+++ b/");
    p.append(file_path);
    p.append("\n");
    let ghost head = p@;
    let mut i: usize = 0;
    proof {
        assert(strs(hunk.lines@).take(0) =~= Seq::<Seq<char>>::empty());
        assert(head + joined_lines(strs(hunk.lines@).take(0)) == head);
    }
    while i < hunk.lines.len()
        invariant
            i <= hunk.lines@.len(),
            p@ == head + joined_lines(strs(hunk.lines@).take(i as int)),
        decreases hunk.lines@.len() - i,
    {
        p.append(hunk.lines[i].as_str());
        p.append("\n");
        proof {
            let ls = strs(hunk.lines@);
            assert(ls.take(i + 1).drop_last() == ls.take(i as int));
            assert(ls.take(i + 1).last() == hunk.lines@[i as int]@);
            assert(p@ =~= head + joined_lines(ls.take(i + 1)));
        }
        i = i + 1;
    }
    proof {
        assert(strs(hunk.lines@).take(hunk.lines@.len() as int) == strs(hunk.lines@));
        assert(p@ =~= patch_text(file_path@, strs(hunk.lines@)));
    }
    p
}

impl GitCommands {
    /// Splits a diff into its hunks (see `parse_diff_hunks`).
    pub fn parse_diff_hunks(&self, diff_output: &str) -> (hunks: Vec<DiffHunk>)
        ensures
            hunks@.len() == hunk_groups(lines_of(diff_output@)).len(),
            forall|k: int| 0 <= k < hunks@.len() ==> hunk_from_group(#[trigger] hunks@[k], hunk_groups(lines_of(diff_output@))[k]),
    {
        parse_diff_hunks(diff_output)
    }

    /// The command staging `hunk` of `file_path` by applying its patch to the index; it
    /// must succeed.
    pub fn stage_hunk(&self, file_path: &str, hunk: &DiffHunk) -> (c: GitCommand)
        ensures
            c.program@ == "git"@,
            c.cwd@ == self.path(),
            strs(c.args@) == seq!["apply"@, "--cached"@, "--unidiff-zero"@, "-"@],
            c.env@.len() == 0,
            c.stdin matches Some(p) && p@ == patch_text(file_path@, strs(hunk.lines@)),
    {
        let mut c = self.git(args4("apply", "--cached", "--unidiff-zero", "-"));
        c.stdin = Some(build_patch(file_path, hunk));
        c
    }

    /// The command unstaging `hunk` of `file_path` by reverse-applying its patch to the
    /// index; it must succeed.
    pub fn unstage_hunk(&self, file_path: &str, hunk: &DiffHunk) -> (c: GitCommand)
        ensures
            c.program@ == "git"@,
            c.cwd@ == self.path(),
            strs(c.args@) == seq!["apply"@, "--cached"@, "--reverse"@, "--unidiff-zero"@, "-"@],
            c.env@.len() == 0,
            c.stdin matches Some(p) && p@ == patch_text(file_path@, strs(hunk.lines@)),
    {
        let mut c = self.git(args5("apply", "--cached", "--reverse", "--unidiff-zero", "-"));
        c.stdin = Some(build_patch(file_path, hunk));
        c
    }

    /// The command printing the diff of `path` whose hunks `file_hunks` gives: the
    /// staged diff or the unstaged one; it must succeed.
    pub fn file_hunks(&self, path: &str, staged: bool) -> (c: GitCommand)
        ensures
            staged ==> is_git(c, self.path(), seq!["diff"@, "--cached"@, "--color=never"@, "--"@, path@]),
            !staged ==> is_git(c, self.path(), seq!["diff"@, "--color=never"@, "--"@, path@]),
    {
        if staged {
            self.diff_file_staged(path)
        } else {
            self.diff_file(path)
        }
    }

    /// The command reverting hunk `hunk_index` (from 0) of `unified_diff` in the working
    /// copy of `file_path` by reverse-applying its patch; an error naming the hunk
    /// (counted from 1) and the number of hunks when there is no such hunk.
    pub fn revert_hunk_in_worktree_from_unified_diff(
        &self,
        file_path: &str,
        unified_diff: &str,
        hunk_index: usize,
    ) -> (r: Result<GitCommand, GitError>)
        requires
            hunk_index < usize::MAX,
        ensures
            ({
                let groups = hunk_groups(lines_of(unified_diff@));
                &&& r is Ok <==> hunk_index < groups.len()
                &&& r matches Ok(c) ==> {
                    &&& c.program@ == "git"@
                    &&& c.cwd@ == self.path()
                    &&& strs(c.args@) == seq!["apply"@, "--reverse"@, "--unidiff-zero"@, "-"@]
                    &&& c.env@.len() == 0
                    &&& c.stdin matches Some(p) && p@ == patch_text(file_path@, groups[hunk_index as int])
                }
                &&& r matches Err(GitError::HunkOutOfRange { index, count }) ==> index == hunk_index + 1 && count == groups.len()
                &&& r matches Err(e) ==> e is HunkOutOfRange
            }),
    {
        let hunks = parse_diff_hunks(unified_diff);
        if hunk_index >= hunks.len() {
            return Err(GitError::HunkOutOfRange { index: hunk_index + 1, count: hunks.len() });
        }
        let mut c = self.git(args4("apply", "--reverse", "--unidiff-zero", "-"));
        c.stdin = Some(build_patch(file_path, &hunks[hunk_index]));
        Ok(c)
    }
}

} // verus!

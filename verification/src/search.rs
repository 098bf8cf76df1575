use vstd::prelude::*;

use crate::file_tree::{CommitFileTreeNode, FileTreeNode};
use crate::model::{Commit, Model};
use crate::text::{chars_of, contains_exec, contains_seq, has_prefix, lowercase_of, starts_with, to_lowercase};

verus! {

/// The list that a search in the side panels runs over.
#[derive(Debug, Clone, Copy, PartialEq, Eq, Structural)]
pub enum SearchContext {
    /// The working-tree files, as a list.
    Files,
    /// The working-tree files, as a tree.
    FileTree,
    Commits,
    Reflog,
    Tags,
    Remotes,
    Worktrees,
    /// The files of a commit, as a list.
    CommitFiles,
    /// The files of a commit, as a tree.
    CommitFileTree,
    /// The commits of another branch.
    BranchCommits,
    /// A list that is not searched.
    Other,
}

/// `q` (lowercase) occurs in the lowercase form of `s`.
pub open spec fn mentions(s: Seq<char>, q: Seq<char>) -> bool {
    contains_seq(lowercase_of(s), q)
}

/// Whether item `k` of the list `ctx` matches: `lq` is the lowercase query, `raw` the
/// query as typed.  Names and paths are matched without regard to case; a commit of the
/// commit list or the reflog also matches when its hash starts with the query as typed.
pub open spec fn item_matches(
    model: Model,
    tree: Seq<FileTreeNode>,
    commit_tree: Seq<CommitFileTreeNode>,
    ctx: SearchContext,
    k: int,
    lq: Seq<char>,
    raw: Seq<char>,
) -> bool {
    match ctx {
        SearchContext::Files => mentions(model.files@[k].name@, lq),
        SearchContext::FileTree => mentions(tree[k].path@, lq) || mentions(tree[k].name@, lq),
        SearchContext::Commits => {
            let c = model.commits@[k];
            mentions(c.name@, lq) || has_prefix(c.hash@, raw) || mentions(c.author_name@, lq)
        },
        SearchContext::Reflog => {
            let c = model.reflog_commits@[k];
            mentions(c.name@, lq) || has_prefix(c.hash@, raw)
        },
        SearchContext::Tags => mentions(model.tags@[k].name@, lq),
        SearchContext::Remotes => mentions(model.remotes@[k].name@, lq),
        SearchContext::Worktrees => mentions(model.worktrees@[k].branch@, lq) || mentions(model.worktrees@[k].path@, lq),
        SearchContext::CommitFiles => mentions(model.commit_files@[k].name@, lq),
        SearchContext::CommitFileTree => mentions(commit_tree[k].path@, lq) || mentions(commit_tree[k].name@, lq),
        SearchContext::BranchCommits => {
            let c = model.sub_commits@[k];
            mentions(c.name@, lq) || mentions(c.hash@, lq) || mentions(c.author_name@, lq)
        },
        SearchContext::Other => false,
    }
}

/// The number of items of the list `ctx`.
pub open spec fn list_len(model: Model, tree: Seq<FileTreeNode>, commit_tree: Seq<CommitFileTreeNode>, ctx: SearchContext) -> nat {
    match ctx {
        SearchContext::Files => model.files@.len(),
        SearchContext::FileTree => tree.len(),
        SearchContext::Commits => model.commits@.len(),
        SearchContext::Reflog => model.reflog_commits@.len(),
        SearchContext::Tags => model.tags@.len(),
        SearchContext::Remotes => model.remotes@.len(),
        SearchContext::Worktrees => model.worktrees@.len(),
        SearchContext::CommitFiles => model.commit_files@.len(),
        SearchContext::CommitFileTree => commit_tree.len(),
        SearchContext::BranchCommits => model.sub_commits@.len(),
        SearchContext::Other => 0,
    }
}

/// The indices below `n` of the matching items, ascending.
pub open spec fn matching_before(
    model: Model,
    tree: Seq<FileTreeNode>,
    commit_tree: Seq<CommitFileTreeNode>,
    ctx: SearchContext,
    lq: Seq<char>,
    raw: Seq<char>,
    n: int,
) -> Seq<usize>
    decreases n,
{
    if n <= 0 {
        seq![]
    } else if item_matches(model, tree, commit_tree, ctx, n - 1, lq, raw) {
        matching_before(model, tree, commit_tree, ctx, lq, raw, n - 1).push((n - 1) as usize)
    } else {
        matching_before(model, tree, commit_tree, ctx, lq, raw, n - 1)
    }
}

proof fn lemma_matching_members(
    model: Model,
    tree: Seq<FileTreeNode>,
    commit_tree: Seq<CommitFileTreeNode>,
    ctx: SearchContext,
    lq: Seq<char>,
    raw: Seq<char>,
    n: int,
)
    requires
        n <= usize::MAX,
    ensures
        forall|k: int|
            0 <= k <= usize::MAX ==> (matching_before(model, tree, commit_tree, ctx, lq, raw, n).contains(k as usize) <==> (
            0 <= k < n && item_matches(model, tree, commit_tree, ctx, k, lq, raw))),
        forall|i: int, j: int|
            0 <= i < j < matching_before(model, tree, commit_tree, ctx, lq, raw, n).len() ==> matching_before(
                model,
                tree,
                commit_tree,
                ctx,
                lq,
                raw,
                n,
            )[i] < matching_before(model, tree, commit_tree, ctx, lq, raw, n)[j],
        forall|i: int|
            0 <= i < matching_before(model, tree, commit_tree, ctx, lq, raw, n).len() ==> matching_before(
                model,
                tree,
                commit_tree,
                ctx,
                lq,
                raw,
                n,
            )[i] < n,
    decreases n,
{
    if n > 0 {
        lemma_matching_members(model, tree, commit_tree, ctx, lq, raw, n - 1);
        let prev = matching_before(model, tree, commit_tree, ctx, lq, raw, n - 1);
        if item_matches(model, tree, commit_tree, ctx, n - 1, lq, raw) {
            let cur = prev.push((n - 1) as usize);
            assert forall|k: int| 0 <= k <= usize::MAX implies (cur.contains(k as usize) <==> (0 <= k < n
                && item_matches(model, tree, commit_tree, ctx, k, lq, raw))) by {
                if k == n - 1 {
                    assert(cur[prev.len() as int] == k as usize);
                }
                if cur.contains(k as usize) && k != n - 1 {
                    let j = choose|j: int| 0 <= j < cur.len() && cur[j] == k as usize;
                    assert(j < prev.len());
                    assert(prev.contains(k as usize));
                }
                if prev.contains(k as usize) {
                    let j = choose|j: int| 0 <= j < prev.len() && prev[j] == k as usize;
                    assert(cur[j] == k as usize);
                }
            }
        }
    }
}

/// The search of a side-panel list finds, in ascending order, exactly the entries whose
/// shown text holds the query, case aside: a file by its name (or, in a tree, its path
/// or name); a commit by its subject or author, or by a hash that starts with the query
/// as typed; a reflog entry by its subject or hash prefix; a tag or remote by its name;
/// a worktree by its branch or its path; a commit of another branch by its subject, hash
/// or author. An empty query finds nothing.
pub proof fn lemma_search_finds_by_fields(
    model: Model,
    tree: Seq<FileTreeNode>,
    commit_tree: Seq<CommitFileTreeNode>,
    ctx: SearchContext,
    query: Seq<char>,
    k: int,
)
    requires
        query.len() > 0,
        0 <= k < list_len(model, tree, commit_tree, ctx),
        list_len(model, tree, commit_tree, ctx) <= usize::MAX,
    ensures
        ({
            let q = lowercase_of(query);
            let found = matching_before(
                model,
                tree,
                commit_tree,
                ctx,
                q,
                query,
                list_len(model, tree, commit_tree, ctx) as int,
            );
            let has = |s: Seq<char>| contains_seq(lowercase_of(s), q);
            &&& found.contains(k as usize) <==> match ctx {
                SearchContext::Files => has(model.files@[k].name@),
                SearchContext::FileTree => has(tree[k].path@) || has(tree[k].name@),
                SearchContext::Commits => has(model.commits@[k].name@) || has_prefix(model.commits@[k].hash@, query)
                    || has(model.commits@[k].author_name@),
                SearchContext::Reflog => has(model.reflog_commits@[k].name@) || has_prefix(
                    model.reflog_commits@[k].hash@,
                    query,
                ),
                SearchContext::Tags => has(model.tags@[k].name@),
                SearchContext::Remotes => has(model.remotes@[k].name@),
                SearchContext::Worktrees => has(model.worktrees@[k].branch@) || has(model.worktrees@[k].path@),
                SearchContext::CommitFiles => has(model.commit_files@[k].name@),
                SearchContext::CommitFileTree => has(commit_tree[k].path@) || has(commit_tree[k].name@),
                SearchContext::BranchCommits => has(model.sub_commits@[k].name@) || has(model.sub_commits@[k].hash@)
                    || has(model.sub_commits@[k].author_name@),
                SearchContext::Other => false,
            }
            &&& forall|i: int, j: int| 0 <= i < j < found.len() ==> found[i] < found[j]
        }),
{
    let n = list_len(model, tree, commit_tree, ctx) as int;
    let q = lowercase_of(query);
    lemma_matching_members(model, tree, commit_tree, ctx, q, query, n);
    let found = matching_before(model, tree, commit_tree, ctx, q, query, n);
    assert(found.contains(k as usize) <==> item_matches(model, tree, commit_tree, ctx, k, q, query));
}

/// Whether the lowercase form of `s` holds `q`.
fn mentions_exec(s: &str, q: &[char]) -> (b: bool)
    ensures
        b == mentions(s@, q@),
{
    let l = to_lowercase(s);
    contains_exec(&chars_of(l.as_str()), q)
}

/// Whether `c` matches as a commit of the commit list (`with_author`) or of the reflog.
fn commit_matches(c: &Commit, q: &[char], raw: &[char], with_author: bool) -> (b: bool)
    ensures
        b == (mentions(c.name@, q@) || has_prefix(c.hash@, raw@) || (with_author && mentions(c.author_name@, q@))),
{
    mentions_exec(c.name.as_str(), q) || starts_with(&chars_of(c.hash.as_str()), raw) || (with_author
        && mentions_exec(c.author_name.as_str(), q))
}

/// Whether item `k` of the list `ctx` matches (see `item_matches`).
fn item_matches_exec(
    model: &Model,
    tree: &Vec<FileTreeNode>,
    commit_tree: &Vec<CommitFileTreeNode>,
    ctx: SearchContext,
    k: usize,
    q: &[char],
    raw: &[char],
) -> (b: bool)
    requires
        k < list_len(*model, tree@, commit_tree@, ctx),
    ensures
        b == item_matches(*model, tree@, commit_tree@, ctx, k as int, q@, raw@),
{
    match ctx {
        SearchContext::Files => mentions_exec(model.files[k].name.as_str(), q),
        SearchContext::FileTree => mentions_exec(tree[k].path.as_str(), q) || mentions_exec(tree[k].name.as_str(), q),
        SearchContext::Commits => commit_matches(&model.commits[k], q, raw, true),
        SearchContext::Reflog => commit_matches(&model.reflog_commits[k], q, raw, false),
        SearchContext::Tags => mentions_exec(model.tags[k].name.as_str(), q),
        SearchContext::Remotes => mentions_exec(model.remotes[k].name.as_str(), q),
        SearchContext::Worktrees => mentions_exec(model.worktrees[k].branch.as_str(), q) || mentions_exec(
            model.worktrees[k].path.as_str(),
            q,
        ),
        SearchContext::CommitFiles => mentions_exec(model.commit_files[k].name.as_str(), q),
        SearchContext::CommitFileTree => mentions_exec(commit_tree[k].path.as_str(), q) || mentions_exec(
            commit_tree[k].name.as_str(),
            q,
        ),
        SearchContext::BranchCommits => {
            let c = &model.sub_commits[k];
            mentions_exec(c.name.as_str(), q) || mentions_exec(c.hash.as_str(), q) || mentions_exec(c.author_name.as_str(), q)
        },
        SearchContext::Other => false,
    }
}

/// The indices of the items of the list `ctx` that match `query`, ascending: none for an
/// empty query; else those for which `item_matches` holds with the lowercase query.
pub fn list_search_matches(
    model: &Model,
    tree: &Vec<FileTreeNode>,
    commit_tree: &Vec<CommitFileTreeNode>,
    ctx: SearchContext,
    query: &str,
) -> (r: Vec<usize>)
    ensures
        query@.len() == 0 ==> r@.len() == 0,
        query@.len() > 0 ==> r@ == matching_before(
            *model,
            tree@,
            commit_tree@,
            ctx,
            lowercase_of(query@),
            query@,
            list_len(*model, tree@, commit_tree@, ctx) as int,
        ),
{
    let mut r: Vec<usize> = Vec::new();
    if query.is_empty() {
        return r;
    }
    let lower = to_lowercase(query);
    let q = chars_of(lower.as_str());
    let raw = chars_of(query);
    let n: usize = match ctx {
        SearchContext::Files => model.files.len(),
        SearchContext::FileTree => tree.len(),
        SearchContext::Commits => model.commits.len(),
        SearchContext::Reflog => model.reflog_commits.len(),
        SearchContext::Tags => model.tags.len(),
        SearchContext::Remotes => model.remotes.len(),
        SearchContext::Worktrees => model.worktrees.len(),
        SearchContext::CommitFiles => model.commit_files.len(),
        SearchContext::CommitFileTree => commit_tree.len(),
        SearchContext::BranchCommits => model.sub_commits.len(),
        SearchContext::Other => 0,
    };
    let mut k: usize = 0;
    while k < n
        invariant
            k <= n,
            n == list_len(*model, tree@, commit_tree@, ctx),
            q@ == lowercase_of(query@),
            raw@ == query@,
            r@ == matching_before(*model, tree@, commit_tree@, ctx, q@, raw@, k as int),
        decreases n - k,
    {
        if item_matches_exec(model, tree, commit_tree, ctx, k, &q, &raw) {
            r.push(k);
        }
        k = k + 1;
    }
    r
}

/// The state of a side-panel search: whether its input is open, the matching entries and
/// the current match among them.
pub struct ListSearch {
    pub active: bool,
    pub matches: Vec<usize>,
    pub match_idx: usize,
}

/// The match after `idx` among `len`, going round.
pub open spec fn next_match_idx(idx: int, len: int) -> int {
    (idx + 1) % len
}

/// The match before `idx` among `len`, going round.
pub open spec fn prev_match_idx(idx: int, len: int) -> int {
    if idx == 0 {
        len - 1
    } else {
        idx - 1
    }
}

impl ListSearch {
    /// A search whose input has just been opened: no matches yet.
    pub fn new() -> (s: ListSearch)
        ensures
            s.active,
            s.matches@.len() == 0,
            s.match_idx == 0,
    {
        ListSearch { active: true, matches: Vec::new(), match_idx: 0 }
    }

    /// Escape: the search closes and forgets its matches.
    pub fn cancel(&mut self)
        ensures
            !final(self).active,
            final(self).matches@.len() == 0,
            final(self).match_idx == 0,
    {
        self.active = false;
        self.matches = Vec::new();
        self.match_idx = 0;
    }

    /// Enter: the input closes; with matches, the first becomes current and is the entry
    /// to select.
    pub fn confirm(&mut self) -> (r: Option<usize>)
        ensures
            !final(self).active,
            final(self).matches@ == old(self).matches@,
            old(self).matches@.len() == 0 ==> r is None && final(self).match_idx == old(self).match_idx,
            old(self).matches@.len() > 0 ==> r == Some(old(self).matches@[0]) && final(self).match_idx == 0,
    {
        self.active = false;
        if self.matches.len() > 0 {
            self.match_idx = 0;
            Some(self.matches[0])
        } else {
            None
        }
    }

    /// The matches found for a changed query; the current match stays where it was.
    pub fn set_matches(&mut self, matches: Vec<usize>)
        ensures
            final(self).active == old(self).active,
            final(self).matches@ == matches@,
            final(self).match_idx == old(self).match_idx,
    {
        self.matches = matches;
    }

    /// The next match, going round, is current and is the entry to select; nothing
    /// without matches.
    pub fn next_match(&mut self) -> (r: Option<usize>)
        requires
            old(self).match_idx < usize::MAX,
        ensures
            final(self).active == old(self).active,
            final(self).matches@ == old(self).matches@,
            old(self).matches@.len() == 0 ==> r is None && final(self).match_idx == old(self).match_idx,
            old(self).matches@.len() > 0 ==> {
                &&& final(self).match_idx == next_match_idx(old(self).match_idx as int, old(self).matches@.len() as int)
                &&& r == Some(old(self).matches@[final(self).match_idx as int])
            },
    {
        if self.matches.len() == 0 {
            return None;
        }
        self.match_idx = (self.match_idx + 1) % self.matches.len();
        Some(self.matches[self.match_idx])
    }

    /// The match before, going round, is current and is the entry to select; nothing
    /// without matches.
    pub fn prev_match(&mut self) -> (r: Option<usize>)
        requires
            old(self).match_idx <= old(self).matches@.len(),
        ensures
            final(self).active == old(self).active,
            final(self).matches@ == old(self).matches@,
            old(self).matches@.len() == 0 ==> r is None && final(self).match_idx == old(self).match_idx,
            old(self).matches@.len() > 0 ==> {
                &&& final(self).match_idx == prev_match_idx(old(self).match_idx as int, old(self).matches@.len() as int)
                &&& r == Some(old(self).matches@[final(self).match_idx as int])
            },
    {
        if self.matches.len() == 0 {
            return None;
        }
        self.match_idx = if self.match_idx == 0 {
            self.matches.len() - 1
        } else {
            self.match_idx - 1
        };
        Some(self.matches[self.match_idx])
    }
}

/// Going to the previous match right after the next one comes back to the current
/// match, and the other way round.
pub proof fn lemma_prev_undoes_next(idx: int, len: int)
    requires
        0 <= idx < len,
    ensures
        prev_match_idx(next_match_idx(idx, len), len) == idx,
        next_match_idx(prev_match_idx(idx, len), len) == idx,
{
    if idx + 1 < len {
        assert((idx + 1) % len == idx + 1) by (nonlinear_arith)
            requires
                0 <= idx + 1 < len,
        ;
    } else {
        assert((idx + 1) % len == 0) by (nonlinear_arith)
            requires
                idx + 1 == len,
                len > 0,
        ;
    }
    if idx == 0 {
        assert(len % len == 0) by (nonlinear_arith)
            requires
                len > 0,
        ;
    } else {
        assert(idx % len == idx) by (nonlinear_arith)
            requires
                0 <= idx < len,
        ;
    }
}

} // verus!

use vstd::prelude::*;

use crate::model::strs;
use crate::nav::ContextId;
use crate::text::{
    byte_len, bytes_len, char_index_of_byte, chars_of, decimal, decimal_string, join_chars, join_with, owned,
    prefix_bytes, push_all, slice_vec, string_of,
};

verus! {

/// Where the diff shown for a file comes from.
#[derive(Debug, Clone, Copy, PartialEq, Eq, Structural)]
pub enum DiffSource {
    /// Its unstaged changes.
    Unstaged,
    /// Its staged changes.
    Staged,
    /// Its whole content (a file git does not track).
    Content,
    /// Nothing to show.
    Nothing,
}

/// The source of the diff of a selected file: its unstaged changes when it has any, else
/// its staged ones, else nothing.
pub fn file_diff_source(has_unstaged: bool, has_staged: bool) -> (d: DiffSource)
    ensures
        has_unstaged ==> d == DiffSource::Unstaged,
        !has_unstaged && has_staged ==> d == DiffSource::Staged,
        !has_unstaged && !has_staged ==> d == DiffSource::Nothing,
{
    if has_unstaged {
        DiffSource::Unstaged
    } else if has_staged {
        DiffSource::Staged
    } else {
        DiffSource::Nothing
    }
}

/// Whether the diff panel shows the content of a selected file instead of its diff: its
/// diff is empty and git does not track it.
pub fn shows_content(diff: &str, git_tracked: bool) -> (b: bool)
    ensures
        b == (diff@.len() == 0 && !git_tracked),
{
    diff.is_empty() && !git_tracked
}

/// The source of the diff of one file of a selected directory: its unstaged changes, else
/// its staged ones, else its content when git does not track it, else nothing.
pub fn child_diff_source(has_unstaged: bool, has_staged: bool, git_tracked: bool) -> (d: DiffSource)
    ensures
        has_unstaged ==> d == DiffSource::Unstaged,
        !has_unstaged && has_staged ==> d == DiffSource::Staged,
        !has_unstaged && !has_staged && !git_tracked ==> d == DiffSource::Content,
        !has_unstaged && !has_staged && git_tracked ==> d == DiffSource::Nothing,
{
    if has_unstaged {
        DiffSource::Unstaged
    } else if has_staged {
        DiffSource::Staged
    } else if !git_tracked {
        DiffSource::Content
    } else {
        DiffSource::Nothing
    }
}

/// The non-empty texts of `v`, in order.
pub open spec fn non_empty(v: Seq<Seq<char>>) -> Seq<Seq<char>>
    decreases v.len(),
{
    if v.len() == 0 {
        seq![]
    } else if v.last().len() == 0 {
        non_empty(v.drop_last())
    } else {
        non_empty(v.drop_last()).push(v.last())
    }
}

/// The diffs of the files of a directory shown together: the non-empty ones, joined with
/// newlines.
pub fn combine_diffs(diffs: &Vec<String>) -> (r: String)
    ensures
        r@ == join_with(non_empty(strs(diffs@)), "\n"@),
{
    let ghost dv = strs(diffs@);
    let mut parts: Vec<Vec<char>> = Vec::new();
    let mut i: usize = 0;
    proof {
        assert(dv.take(0).len() == 0);
        assert(crate::text::comps(parts@) =~= seq![]);
    }
    while i < diffs.len()
        invariant
            i <= diffs@.len(),
            dv == strs(diffs@),
            crate::text::comps(parts@) == non_empty(dv.take(i as int)),
        decreases diffs@.len() - i,
    {
        let d = chars_of(diffs[i].as_str());
        proof {
            let t = dv.take(i + 1);
            assert(t.drop_last() == dv.take(i as int));
            assert(t.last() == diffs@[i as int]@);
        }
        if d.len() > 0 {
            proof {
                assert(crate::text::comps(parts@.push(d)) =~= crate::text::comps(parts@).push(d@));
            }
            parts.push(d);
        }
        i = i + 1;
    }
    proof {
        assert(dv.take(dv.len() as int) == dv);
    }
    let nl = chars_of("\n");
    let joined = join_chars(&parts, &nl);
    string_of(&joined)
}

/// The first `n` bytes of `s` fall on a character boundary, or `s` is shorter.
pub open spec fn cuts_at_char(s: Seq<char>, n: nat) -> bool {
    byte_len(s) <= n || exists|k: int| 0 <= k <= s.len() && prefix_bytes(s, k) == n
}

/// `s` cut to its first `n` bytes, or whole when shorter.
pub open spec fn byte_prefix(s: Seq<char>, n: nat) -> Seq<char> {
    if byte_len(s) <= n {
        s
    } else {
        s.take(choose|k: int| 0 <= k <= s.len() && prefix_bytes(s, k) == n)
    }
}

/// The hash cut to seven bytes.
pub fn abbreviated_hash(hash: &str) -> (r: String)
    requires
        cuts_at_char(hash@, 7),
    ensures
        r@ == byte_prefix(hash@, 7),
{
    let h = chars_of(hash);
    let total = bytes_len(&h);
    if total <= 7 {
        proof {
            assert(byte_len(h@) <= 7);
        }
        return string_of(&h);
    }
    proof {
        assert(byte_len(h@) > 7);
    }
    let k = match char_index_of_byte(&h, 7) {
        Some(k) => k,
        None => {
            proof {
                let k0 = choose|k: int| 0 <= k <= h@.len() && prefix_bytes(h@, k) == 7;
                assert(prefix_bytes(h@, k0) != 7);
            }
            0
        },
    };
    proof {
        let k0 = choose|k: int| 0 <= k <= h@.len() && prefix_bytes(h@, k) == 7;
        if k0 < k {
            crate::text::lemma_prefix_bytes_mono(h@, k0, k as int);
        }
        if k0 > k {
            crate::text::lemma_prefix_bytes_mono(h@, k as int, k0);
        }
    }
    let cut = slice_vec(&h, 0, k);
    proof {
        assert(cut@ == h@.take(k as int));
    }
    string_of(&cut)
}

/// The title of a commit's diff: `prefix:` and the hash cut to seven bytes.
pub fn short_hash_title(prefix: &str, hash: &str) -> (r: String)
    requires
        cuts_at_char(hash@, 7),
    ensures
        r@ == prefix@ + ":"@ + byte_prefix(hash@, 7),
{
    let mut r = crate::text::cat(prefix, ":");
    let h = abbreviated_hash(hash);
    r.append(h.as_str());
    r
}

/// The title of a stash entry's diff: `stash@{index}`.
pub fn stash_title(index: usize) -> (r: String)
    ensures
        r@ == "stash@{"@ + decimal(index as nat) + "}"@,
{
    let mut r = owned("stash@{");
    let n = decimal_string(index as u64);
    r.append(n.as_str());
    r.append("}");
    r
}

/// What a loaded diff was loaded for: nothing yet, the compare view's selected file, or
/// the selected entry of a side-panel list.
#[derive(Debug, Clone, Copy, PartialEq, Eq, Structural)]
pub enum DiffKey {
    Nothing,
    Compare(usize),
    Side(ContextId, usize),
}

/// The key of the diff to show: none in the rebase view (it shows no diff); the compare
/// view's selected file; else the active list and its selected entry.
pub open spec fn diff_key_of(rebase_mode: bool, compare_mode: bool, compare_file: usize, active: ContextId, selected: usize) -> Option<DiffKey> {
    if rebase_mode {
        None
    } else if compare_mode {
        Some(DiffKey::Compare(compare_file))
    } else {
        Some(DiffKey::Side(active, selected))
    }
}

/// The key of the diff to show (see `diff_key_of`).
pub fn diff_key(rebase_mode: bool, compare_mode: bool, compare_file: usize, active: ContextId, selected: usize) -> (k: Option<DiffKey>)
    ensures
        k == diff_key_of(rebase_mode, compare_mode, compare_file, active, selected),
{
    if rebase_mode {
        None
    } else if compare_mode {
        Some(DiffKey::Compare(compare_file))
    } else {
        Some(DiffKey::Side(active, selected))
    }
}

/// Whether the diff for `key` is to be loaded: it is not the one shown (`last`), or a
/// reload was asked for.
pub fn should_load_diff(key: DiffKey, last: DiffKey, needs_refresh: bool) -> (b: bool)
    ensures
        b == (key != last || needs_refresh),
{
    key != last || needs_refresh
}

/// A row of a file tree as far as the diff is concerned: the file it shows, if any, and
/// whether it is a directory with files under it.
#[derive(Debug, Clone, Copy, PartialEq, Eq, Structural)]
pub struct TreeRow {
    pub file_index: Option<usize>,
    pub is_dir: bool,
    pub has_children: bool,
}

/// What the diff to show depends on: the lengths of the lists, and, for the two file
/// lists, whether they show as trees and the tree row selected (none when the selection
/// is past the last row).
#[derive(Debug, Clone, Copy, PartialEq, Eq, Structural)]
pub struct DiffInputs {
    pub files_len: usize,
    pub commits_len: usize,
    pub reflog_len: usize,
    pub stash_len: usize,
    pub branch_commits_len: usize,
    pub commit_files_len: usize,
    pub file_tree: bool,
    pub file_row: Option<TreeRow>,
    pub commit_file_tree: bool,
    pub commit_file_row: Option<TreeRow>,
}

/// Which diff to load for the selection.
#[derive(Debug, Clone, Copy, PartialEq, Eq, Structural)]
pub enum DiffPlan {
    /// Leave the diff shown as it is.
    Keep,
    /// Show no diff.
    Clear,
    /// The changes of this working-tree file.
    WorkingFile(usize),
    /// The changes of the working-tree files under the directory at this tree row.
    WorkingDir(usize),
    /// The diff of this entry of the active list of commits, reflog entries, stash
    /// entries or branch commits.
    Entry(usize),
    /// The diff of this file of the commit or stash entry shown.
    CommitFile(usize),
    /// The diffs of the files under the directory at this tree row of the commit shown.
    CommitDir(usize),
}

/// The file the selection of a file list names: the file of the selected tree row, or
/// the selected entry itself when the list is flat.
pub open spec fn selected_file(tree: bool, row: Option<TreeRow>, selected: usize) -> Option<usize> {
    if tree {
        match row {
            Some(r) => r.file_index,
            None => None,
        }
    } else {
        Some(selected)
    }
}

/// The selected tree row is a directory with files under it.
pub open spec fn dir_row(tree: bool, row: Option<TreeRow>) -> bool {
    tree && (row matches Some(r) && r.is_dir && r.has_children)
}

/// Which diff to load when list `active` has entry `selected` selected: for the files,
/// the selected file's changes, a directory's files' changes in the tree, else none;
/// for the commits, the reflog, the stash and a branch's commits, the selected entry's
/// diff while it exists; for the files of a commit or stash entry, likewise their file
/// or directory; the other lists leave the diff as it is.
pub open spec fn diff_plan_of(active: ContextId, selected: usize, d: DiffInputs) -> DiffPlan {
    match active {
        ContextId::Files => match selected_file(d.file_tree, d.file_row, selected) {
            Some(i) if i < d.files_len => DiffPlan::WorkingFile(i),
            _ => if dir_row(d.file_tree, d.file_row) {
                DiffPlan::WorkingDir(selected)
            } else {
                DiffPlan::Clear
            },
        },
        ContextId::Commits => if selected < d.commits_len {
            DiffPlan::Entry(selected)
        } else {
            DiffPlan::Keep
        },
        ContextId::Reflog => if selected < d.reflog_len {
            DiffPlan::Entry(selected)
        } else {
            DiffPlan::Keep
        },
        ContextId::Stash => if selected < d.stash_len {
            DiffPlan::Entry(selected)
        } else {
            DiffPlan::Keep
        },
        ContextId::BranchCommits => if selected < d.branch_commits_len {
            DiffPlan::Entry(selected)
        } else {
            DiffPlan::Keep
        },
        ContextId::CommitFiles | ContextId::StashFiles | ContextId::BranchCommitFiles => match selected_file(
            d.commit_file_tree,
            d.commit_file_row,
            selected,
        ) {
            Some(i) if i < d.commit_files_len => DiffPlan::CommitFile(i),
            _ => if dir_row(d.commit_file_tree, d.commit_file_row) {
                DiffPlan::CommitDir(selected)
            } else {
                DiffPlan::Clear
            },
        },
        _ => DiffPlan::Keep,
    }
}

fn selected_file_exec(tree: bool, row: Option<TreeRow>, selected: usize) -> (r: Option<usize>)
    ensures
        r == selected_file(tree, row, selected),
{
    if tree {
        match row {
            Some(r) => r.file_index,
            None => None,
        }
    } else {
        Some(selected)
    }
}

fn dir_row_exec(tree: bool, row: Option<TreeRow>) -> (b: bool)
    ensures
        b == dir_row(tree, row),
{
    match row {
        Some(r) => tree && r.is_dir && r.has_children,
        None => false,
    }
}

/// Which diff to load for the selection (see `diff_plan_of`).
pub fn diff_plan(active: ContextId, selected: usize, d: &DiffInputs) -> (p: DiffPlan)
    ensures
        p == diff_plan_of(active, selected, *d),
{
    match active {
        ContextId::Files => match selected_file_exec(d.file_tree, d.file_row, selected) {
            Some(i) if i < d.files_len => DiffPlan::WorkingFile(i),
            _ => if dir_row_exec(d.file_tree, d.file_row) {
                DiffPlan::WorkingDir(selected)
            } else {
                DiffPlan::Clear
            },
        },
        ContextId::Commits => if selected < d.commits_len {
            DiffPlan::Entry(selected)
        } else {
            DiffPlan::Keep
        },
        ContextId::Reflog => if selected < d.reflog_len {
            DiffPlan::Entry(selected)
        } else {
            DiffPlan::Keep
        },
        ContextId::Stash => if selected < d.stash_len {
            DiffPlan::Entry(selected)
        } else {
            DiffPlan::Keep
        },
        ContextId::BranchCommits => if selected < d.branch_commits_len {
            DiffPlan::Entry(selected)
        } else {
            DiffPlan::Keep
        },
        ContextId::CommitFiles | ContextId::StashFiles | ContextId::BranchCommitFiles => match selected_file_exec(
            d.commit_file_tree,
            d.commit_file_row,
            selected,
        ) {
            Some(i) if i < d.commit_files_len => DiffPlan::CommitFile(i),
            _ => if dir_row_exec(d.commit_file_tree, d.commit_file_row) {
                DiffPlan::CommitDir(selected)
            } else {
                DiffPlan::Clear
            },
        },
        _ => DiffPlan::Keep,
    }
}

} // verus!

use vstd::prelude::*;

use crate::diff_request::{abbreviated_hash, byte_prefix, cuts_at_char};
use crate::git::{is_git, GitCommand, GitCommands};
use crate::model::{strs, Commit, File, Worktree};
use crate::text::{cat3, chars_of, owned, split_words, string_of, words};

verus! {

// ---------------------------------------------------------------------------
// Staging from the files panel
// ---------------------------------------------------------------------------

/// The stage key stages a file that has unstaged changes or nothing staged, and unstages
/// it otherwise.
pub open spec fn stages_file(f: File) -> bool {
    f.has_unstaged_changes || !f.has_staged_changes
}

/// The command the stage key runs on file `selected`: staging or unstaging it (see
/// `stages_file`); none when no file is selected.
pub fn toggle_stage(git: &GitCommands, files: &Vec<File>, selected: usize) -> (r: Option<GitCommand>)
    ensures
        selected >= files@.len() ==> r is None,
        selected < files@.len() ==> (r matches Some(c) && is_git(
            c,
            git.path(),
            if stages_file(files@[selected as int]) {
                seq!["add"@, "--"@, files@[selected as int].name@]
            } else {
                seq!["reset"@, "HEAD"@, "--"@, files@[selected as int].name@]
            },
        )),
{
    if selected >= files.len() {
        return None;
    }
    let f = &files[selected];
    if f.has_unstaged_changes || !f.has_staged_changes {
        Some(git.stage_file(f.name.as_str()))
    } else {
        Some(git.unstage_file(f.name.as_str()))
    }
}

/// Some file has unstaged changes or is not yet followed by git.
pub open spec fn any_unstaged(files: Seq<File>) -> bool {
    exists|i: int| 0 <= i < files.len() && (files[i].has_unstaged_changes || !files[i].git_tracked)
}

/// The command the stage-all key runs: staging everything when some file has unstaged
/// changes or is untracked, else unstaging everything.
pub fn toggle_stage_all(git: &GitCommands, files: &Vec<File>) -> (c: GitCommand)
    ensures
        any_unstaged(files@) ==> is_git(c, git.path(), seq!["add"@, "-A"@]),
        !any_unstaged(files@) ==> is_git(c, git.path(), seq!["reset"@, "HEAD"@]),
{
    let mut i: usize = 0;
    while i < files.len()
        invariant
            i <= files@.len(),
            forall|k: int| 0 <= k < i ==> !(files@[k].has_unstaged_changes || !files@[k].git_tracked),
        decreases files@.len() - i,
    {
        if files[i].has_unstaged_changes || !files[i].git_tracked {
            return git.stage_all();
        }
        i = i + 1;
    }
    git.unstage_all()
}

// ---------------------------------------------------------------------------
// Operations on the selected commit
// ---------------------------------------------------------------------------

/// An operation of the commits panel on the selected commit.
#[derive(Debug, Clone, Copy, PartialEq, Eq, Structural)]
pub enum CommitOp {
    Revert,
    Reword,
    Squash,
    Fixup,
    Drop,
    MoveUp,
    MoveDown,
    CreateFixup,
    AmendTo,
    Checkout,
}

/// What an operation on the selected commit does: the operation, the commit's hash,
/// whether the commit is the head (the first listed), and what is asked first: with
/// `confirm`, a question titled `title`; for a reword, an input titled `title` holding
/// `text`; for a move, nothing.
pub struct CommitPlan {
    pub op: CommitOp,
    pub hash: String,
    pub at_head: bool,
    pub title: String,
    pub text: String,
    pub confirm: bool,
}

/// Whether `op` applies to commit `selected` of `len`: there must be such a commit; the
/// head cannot be squashed, fixed up into its parent or moved up, nor the last moved down.
pub open spec fn commit_op_applies(op: CommitOp, len: nat, selected: nat) -> bool {
    &&& selected < len
    &&& match op {
        CommitOp::Squash | CommitOp::Fixup | CommitOp::MoveUp => selected > 0,
        CommitOp::MoveDown => selected + 1 < len,
        _ => true,
    }
}

/// The title of what `op` asks first.
pub open spec fn commit_op_title(op: CommitOp, at_head: bool) -> Seq<char> {
    match op {
        CommitOp::Revert => "Revert commit"@,
        CommitOp::Reword => "Reword commit"@,
        CommitOp::Squash => "Squash"@,
        CommitOp::Fixup => "Fixup"@,
        CommitOp::Drop => "Drop commit"@,
        CommitOp::MoveUp | CommitOp::MoveDown => Seq::empty(),
        CommitOp::CreateFixup => "Create fixup commit"@,
        CommitOp::AmendTo => if at_head {
            "Amend"@
        } else {
            "Amend to commit"@
        },
        CommitOp::Checkout => "Checkout commit"@,
    }
}

/// The question `op` asks about the commit of short hash `short` (for a reword, the
/// message `name` to edit).
pub open spec fn commit_op_text(op: CommitOp, at_head: bool, short: Seq<char>, name: Seq<char>) -> Seq<char> {
    match op {
        CommitOp::Revert => "Revert commit "@ + short + "?"@,
        CommitOp::Reword => name,
        CommitOp::Squash => "Squash commit "@ + short + " into its parent?"@,
        CommitOp::Fixup => "Fixup commit "@ + short + " into its parent?"@,
        CommitOp::Drop => "Drop commit "@ + short + " from history?"@,
        CommitOp::MoveUp | CommitOp::MoveDown => Seq::empty(),
        CommitOp::CreateFixup => "Create fixup commit for "@ + short + "?"@,
        CommitOp::AmendTo => if at_head {
            "Amend staged changes to HEAD commit?"@
        } else {
            "Amend staged changes to commit "@ + short + "?"@
        },
        CommitOp::Checkout => "Checkout commit "@ + short + "? (detached HEAD)"@,
    }
}

/// Whether `op` asks for a confirmation.
pub open spec fn commit_op_confirms(op: CommitOp) -> bool {
    !(op == CommitOp::Reword || op == CommitOp::MoveUp || op == CommitOp::MoveDown)
}

/// What `op` does on commit `selected` of `commits` (see `CommitPlan`), or none when it
/// does not apply there.
pub fn plan_commit_op(op: CommitOp, commits: &Vec<Commit>, selected: usize) -> (r: Option<CommitPlan>)
    requires
        selected < commits@.len() ==> cuts_at_char(commits@[selected as int].hash@, 7),
    ensures
        !commit_op_applies(op, commits@.len(), selected as nat) ==> r is None,
        commit_op_applies(op, commits@.len(), selected as nat) ==> (r matches Some(p) && {
            let c = commits@[selected as int];
            let at_head = selected == 0;
            &&& p.op == op
            &&& p.hash@ == c.hash@
            &&& p.at_head == at_head
            &&& p.title@ == commit_op_title(op, at_head)
            &&& p.text@ == commit_op_text(op, at_head, byte_prefix(c.hash@, 7), c.name@)
            &&& p.confirm == commit_op_confirms(op)
        }),
{
    if selected >= commits.len() {
        return None;
    }
    let applies = match op {
        CommitOp::Squash | CommitOp::Fixup | CommitOp::MoveUp => selected > 0,
        CommitOp::MoveDown => selected + 1 < commits.len(),
        _ => true,
    };
    if !applies {
        return None;
    }
    let c = &commits[selected];
    let short = abbreviated_hash(c.hash.as_str());
    let s = short.as_str();
    let at_head = selected == 0;
    let (title, text) = match op {
        CommitOp::Revert => (owned("Revert commit"), cat3("Revert commit ", s, "?")),
        CommitOp::Reword => (owned("Reword commit"), owned(c.name.as_str())),
        CommitOp::Squash => (owned("Squash"), cat3("Squash commit ", s, " into its parent?")),
        CommitOp::Fixup => (owned("Fixup"), cat3("Fixup commit ", s, " into its parent?")),
        CommitOp::Drop => (owned("Drop commit"), cat3("Drop commit ", s, " from history?")),
        CommitOp::MoveUp | CommitOp::MoveDown => (String::new(), String::new()),
        CommitOp::CreateFixup => (owned("Create fixup commit"), cat3("Create fixup commit for ", s, "?")),
        CommitOp::AmendTo => if at_head {
            (owned("Amend"), owned("Amend staged changes to HEAD commit?"))
        } else {
            (owned("Amend to commit"), cat3("Amend staged changes to commit ", s, "?"))
        },
        CommitOp::Checkout => (owned("Checkout commit"), cat3("Checkout commit ", s, "? (detached HEAD)")),
    };
    let confirm = match op {
        CommitOp::Reword | CommitOp::MoveUp | CommitOp::MoveDown => false,
        _ => true,
    };
    Some(CommitPlan { op, hash: owned(c.hash.as_str()), at_head, title, text, confirm })
}

// ---------------------------------------------------------------------------
// Worktrees
// ---------------------------------------------------------------------------

/// What the new-worktree input asks for: its first word is the branch, its second, when
/// there is one, the base to start it from; nothing when the input is blank.
pub fn worktree_input(input: &str) -> (r: Option<(String, Option<String>)>)
    ensures
        words(input@).len() == 0 ==> r is None,
        words(input@).len() > 0 ==> (r matches Some((branch, base)) && {
            &&& branch@ == words(input@)[0]
            &&& words(input@).len() >= 2 ==> (base matches Some(b) && b@ == words(input@)[1])
            &&& words(input@).len() < 2 ==> base is None
        }),
{
    let ws = split_words(&chars_of(input));
    proof {
        assert(ws@.len() == words(input@).len());
    }
    if ws.len() == 0 {
        return None;
    }
    let branch = string_of(&ws[0]);
    proof {
        assert(ws@[0]@ == words(input@)[0]);
    }
    let base = if ws.len() >= 2 {
        proof {
            assert(ws@[1]@ == words(input@)[1]);
        }
        Some(string_of(&ws[1]))
    } else {
        None
    };
    Some((branch, base))
}

/// The question asked before removing the worktree of `branch` at `path`.
pub open spec fn remove_worktree_question(branch: Seq<char>, path: Seq<char>) -> Seq<char> {
    "Remove worktree '"@ + branch + "' ("@ + path + ")?\nThis won't delete the branch."@
}

/// The question asked before removing worktree `selected`, and the command that removes
/// it (without forcing); none when there is no such worktree or it is the current or the
/// main one.
pub fn plan_remove_worktree(git: &GitCommands, worktrees: &Vec<Worktree>, selected: usize) -> (r: Option<(String, GitCommand)>)
    ensures
        (selected >= worktrees@.len() || worktrees@[selected as int].is_current || worktrees@[selected as int].is_main)
            ==> r is None,
        selected < worktrees@.len() && !worktrees@[selected as int].is_current && !worktrees@[selected as int].is_main
            ==> (r matches Some((q, c)) && {
            let w = worktrees@[selected as int];
            &&& q@ == remove_worktree_question(w.branch@, w.path@)
            &&& is_git(c, git.path(), seq!["worktree"@, "remove"@, w.path@])
        }),
{
    if selected >= worktrees.len() {
        return None;
    }
    let w = &worktrees[selected];
    if w.is_current || w.is_main {
        return None;
    }
    let mut q = cat3("Remove worktree '", w.branch.as_str(), "' (");
    q.append(w.path.as_str());
    q.append(")?\nThis won't delete the branch.");
    Some((q, git.remove_worktree(w.path.as_str(), false)))
}

/// The worktree that switching to worktree `selected` offers to open, as its branch and
/// path; none when there is no such worktree or it is the current one.
pub fn switch_worktree_target(worktrees: &Vec<Worktree>, selected: usize) -> (r: Option<(String, String)>)
    ensures
        (selected >= worktrees@.len() || worktrees@[selected as int].is_current) ==> r is None,
        selected < worktrees@.len() && !worktrees@[selected as int].is_current ==> (r matches Some((b, p)) && b@
            == worktrees@[selected as int].branch@ && p@ == worktrees@[selected as int].path@),
{
    if selected >= worktrees.len() || worktrees[selected].is_current {
        return None;
    }
    Some((owned(worktrees[selected].branch.as_str()), owned(worktrees[selected].path.as_str())))
}

// ---------------------------------------------------------------------------
// Starting an interactive rebase
// ---------------------------------------------------------------------------

/// How starting an interactive rebase on the selected commit begins.
#[derive(Debug, Clone, PartialEq, Eq)]
pub enum RebaseStart {
    /// No commit is selected: nothing happens.
    NoCommit,
    /// The selected commit is the head: the error "Cannot rebase HEAD onto itself".
    OntoItself,
    /// Rebase onto the commit of this position.
    Base(usize),
}

/// How starting an interactive rebase on commit `selected` begins, the head being the
/// commit `head_hash`.
pub fn rebase_start(commits: &Vec<Commit>, selected: usize, head_hash: &str) -> (r: RebaseStart)
    ensures
        selected >= commits@.len() ==> r == RebaseStart::NoCommit,
        selected < commits@.len() && commits@[selected as int].hash@ == head_hash@ ==> r == RebaseStart::OntoItself,
        selected < commits@.len() && commits@[selected as int].hash@ != head_hash@ ==> r == RebaseStart::Base(selected),
{
    if selected >= commits.len() {
        RebaseStart::NoCommit
    } else if crate::text::chars_eq(&chars_of(commits[selected].hash.as_str()), &chars_of(head_hash)) {
        RebaseStart::OntoItself
    } else {
        RebaseStart::Base(selected)
    }
}

/// The position of the first commit with hash `h` among the first `n`, or -1.
pub open spec fn first_with_hash(commits: Seq<Commit>, h: Seq<char>, n: int) -> int
    decreases n,
{
    if n <= 0 {
        -1
    } else if first_with_hash(commits, h, n - 1) >= 0 {
        first_with_hash(commits, h, n - 1)
    } else if commits[n - 1].hash@ == h {
        n - 1
    } else {
        -1
    }
}

/// The commits a rebase over `hashes` (in git's order) lists, as positions in `commits`:
/// for each hash of the first `n`, the first commit with it; a hash of no listed commit is
/// skipped.
pub open spec fn rebase_positions(commits: Seq<Commit>, hashes: Seq<Seq<char>>, n: int) -> Seq<usize>
    decreases n,
{
    if n <= 0 {
        seq![]
    } else {
        let i = first_with_hash(commits, hashes[n - 1], commits.len() as int);
        if i >= 0 {
            rebase_positions(commits, hashes, n - 1).push(i as usize)
        } else {
            rebase_positions(commits, hashes, n - 1)
        }
    }
}

/// The position of the first commit with hash `h` (see `first_with_hash`).
fn find_commit(commits: &Vec<Commit>, h: &Vec<char>) -> (r: Option<usize>)
    ensures
        match r {
            Some(i) => first_with_hash(commits@, h@, commits@.len() as int) == i,
            None => first_with_hash(commits@, h@, commits@.len() as int) == -1,
        },
{
    let mut i: usize = 0;
    while i < commits.len()
        invariant
            i <= commits@.len(),
            first_with_hash(commits@, h@, i as int) == -1,
        decreases commits@.len() - i,
    {
        if crate::text::chars_eq(&chars_of(commits[i].hash.as_str()), h) {
            proof {
                assert(first_with_hash(commits@, h@, i + 1) == i);
                lemma_first_stays(commits@, h@, i + 1, commits@.len() as int);
            }
            return Some(i);
        }
        i = i + 1;
    }
    None
}

proof fn lemma_first_stays(commits: Seq<Commit>, h: Seq<char>, m: int, n: int)
    requires
        0 <= m <= n,
        first_with_hash(commits, h, m) >= 0,
    ensures
        first_with_hash(commits, h, n) == first_with_hash(commits, h, m),
    decreases n - m,
{
    if m < n {
        lemma_first_stays(commits, h, m, n - 1);
    }
}

/// The commits an interactive rebase over `hashes` (the range git reports, newest first)
/// lists, as positions in `commits` (see `rebase_positions`); none when that leaves no
/// commit, which is the error "No commits to rebase.".
pub fn rebase_commits(commits: &Vec<Commit>, hashes: &Vec<String>) -> (r: Option<Vec<usize>>)
    ensures
        rebase_positions(commits@, strs(hashes@), hashes@.len() as int).len() == 0 ==> r is None,
        rebase_positions(commits@, strs(hashes@), hashes@.len() as int).len() > 0 ==> (r matches Some(v) && v@
            == rebase_positions(commits@, strs(hashes@), hashes@.len() as int)),
{
    let ghost hs = strs(hashes@);
    let mut out: Vec<usize> = Vec::new();
    let mut k: usize = 0;
    while k < hashes.len()
        invariant
            k <= hashes@.len(),
            hs == strs(hashes@),
            out@ == rebase_positions(commits@, hs, k as int),
        decreases hashes@.len() - k,
    {
        let h = chars_of(hashes[k].as_str());
        proof {
            assert(hs[k as int] == h@);
        }
        match find_commit(commits, &h) {
            Some(i) => {
                out.push(i);
            },
            None => {},
        }
        k = k + 1;
    }
    if out.len() == 0 {
        None
    } else {
        Some(out)
    }
}

} // verus!

use vstd::prelude::*;

use crate::diff_request::{byte_prefix, cuts_at_char};
use crate::git::{args4, is_git, CmdOutput, GitCommand, GitCommands};
use crate::model::strs;
use crate::text::{chars_of, comps, lines_of, split_lines, string_of};

verus! {

/// Undo and redo move along the reflog: entry 0 is the current state, entry `i` the
/// state `i` steps back.  `UndoStep` is a step to take: the entry's index and hash.
pub struct UndoStep {
    pub index: usize,
    pub hash: String,
}

impl GitCommands {
    /// The command listing the hashes of the last twenty reflog entries, newest first.
    pub fn reflog_hashes(&self) -> (c: GitCommand)
        ensures
            is_git(c, self.path(), seq!["reflog"@, "--format=%H"@, "-n"@, "20"@]),
    {
        self.git(args4("reflog", "--format=%H", "-n", "20"))
    }
}

/// The reflog hashes listed by a successful `reflog_hashes` command, one per line; none
/// when it failed.
pub fn parse_reflog_hashes(out: &CmdOutput) -> (r: Vec<String>)
    ensures
        out.success ==> strs(r@) == lines_of(out.stdout@),
        !out.success ==> r@.len() == 0,
{
    let mut r: Vec<String> = Vec::new();
    if !out.success {
        return r;
    }
    let text = chars_of(out.stdout.as_str());
    let lines = split_lines(&text);
    let ghost lv = comps(lines@);
    proof {
        assert(lv == lines@.map_values(|v: Vec<char>| v@));
        assert(strs(r@) =~= lv.take(0));
    }
    let mut i: usize = 0;
    while i < lines.len()
        invariant
            i <= lines@.len(),
            lv == comps(lines@),
            strs(r@) == lv.take(i as int),
        decreases lines@.len() - i,
    {
        let s = string_of(&lines[i]);
        proof {
            assert(strs(r@.push(s)) =~= strs(r@).push(s@));
            assert(lv.take(i + 1) =~= lv.take(i as int).push(lv[i as int]));
        }
        r.push(s);
        i = i + 1;
    }
    proof {
        assert(lv.take(lv.len() as int) == lv);
    }
    r
}

/// The entry an undo from entry `at` goes to: the next older one, when listed.
pub open spec fn undo_index(len: nat, at: nat) -> Option<nat> {
    if at + 1 < len {
        Some(at + 1)
    } else {
        None
    }
}

/// The entry a redo from entry `at` goes to: the next newer one, when there is one and
/// it is listed.
pub open spec fn redo_index(len: nat, at: nat) -> Option<nat> {
    if at == 0 || at - 1 >= len {
        None
    } else {
        Some((at - 1) as nat)
    }
}

/// The step an undo from entry `at` takes (see `undo_index`).
pub fn undo_step(entries: &Vec<String>, at: usize) -> (r: Option<UndoStep>)
    ensures
        match undo_index(entries@.len(), at as nat) {
            Some(i) => r matches Some(s) && s.index == i && s.hash@ == entries@[i as int]@,
            None => r is None,
        },
{
    if at < entries.len() && entries.len() - at > 1 {
        let i = at + 1;
        Some(UndoStep { index: i, hash: entries[i].clone() })
    } else {
        None
    }
}

/// The step a redo from entry `at` takes (see `redo_index`).
pub fn redo_step(entries: &Vec<String>, at: usize) -> (r: Option<UndoStep>)
    ensures
        match redo_index(entries@.len(), at as nat) {
            Some(i) => r matches Some(s) && s.index == i && s.hash@ == entries@[i as int]@,
            None => r is None,
        },
{
    if at == 0 || at - 1 >= entries.len() {
        None
    } else {
        let i = at - 1;
        Some(UndoStep { index: i, hash: entries[i].clone() })
    }
}

/// A redo right after an undo comes back to the entry the undo started from.
pub proof fn lemma_redo_after_undo(len: nat, at: nat)
    requires
        undo_index(len, at) is Some,
    ensures
        redo_index(len, undo_index(len, at)->0) == Some(at),
{
}

/// The question asked before a step: `Undo to reflog entry i? (hash)` or the same with
/// `Redo`, the hash cut to seven bytes.
pub fn step_question(undo: bool, step: &UndoStep) -> (r: String)
    requires
        cuts_at_char(step.hash@, 7),
    ensures
        r@ == (if undo {
            "Undo"@
        } else {
            "Redo"@
        }) + " to reflog entry "@ + crate::text::decimal(step.index as nat) + "? ("@ + byte_prefix(step.hash@, 7) + ")"@,
{
    let mut r = crate::text::owned(if undo {
        "Undo"
    } else {
        "Redo"
    });
    r.append(" to reflog entry ");
    let n = crate::text::decimal_string(step.index as u64);
    r.append(n.as_str());
    r.append("? (");
    let s = crate::diff_request::abbreviated_hash(step.hash.as_str());
    r.append(s.as_str());
    r.append(")");
    r
}

} // verus!

use vstd::prelude::*;

use crate::git::{args2, args4, is_git, CmdOutput, GitCommand, GitCommands};
use crate::model::strs;
use crate::text::{
    byte_len, bytes_len, char_index_of_byte, chars_of, owned, parse_nat, parse_usize, prefix_bytes,
    slice_vec, split_words, string_of, trim, trim_exec, words,
};

verus! {

/// The state of the repository: branch, distance to upstream, operations in progress.
pub struct RepoStatus {
    pub branch: String,
    pub ahead: usize,
    pub behind: usize,
    pub is_rebasing: bool,
    pub is_merging: bool,
    pub is_cherry_picking: bool,
    pub is_bisecting: bool,
    /// Short hash of the commit being rebased onto.
    pub rebase_onto_hash: String,
}

/// A count read as a `usize`, or 0.
pub open spec fn count_or_zero(w: Seq<char>) -> nat {
    match parse_nat(w) {
        Some(v) => if v <= usize::MAX {
            v
        } else {
            0
        },
        None => 0,
    }
}

/// Commits ahead and behind upstream from `git rev-list --left-right --count`: the two
/// numbers of its output, (0, 0) when git failed or did not print exactly two words.
pub open spec fn ahead_behind_of(success: bool, stdout: Seq<char>) -> (nat, nat) {
    let w = words(trim(stdout));
    if !success || w.len() != 2 {
        (0, 0)
    } else {
        (count_or_zero(w[0]), count_or_zero(w[1]))
    }
}

/// Reads the output of `ahead_behind`.
pub fn parse_ahead_behind(out: &CmdOutput) -> (r: (usize, usize))
    ensures
        (r.0 as nat, r.1 as nat) == ahead_behind_of(out.success, out.stdout@),
{
    if !out.success {
        return (0, 0);
    }
    let text = chars_of(out.stdout.as_str());
    let t = trim_exec(&text);
    let w = split_words(&t);
    proof {
        assert(w@.len() == words(trim(out.stdout@)).len());
    }
    if w.len() != 2 {
        return (0, 0);
    }
    proof {
        assert(w@[0]@ == words(trim(out.stdout@))[0]);
        assert(w@[1]@ == words(trim(out.stdout@))[1]);
    }
    let a = match parse_usize(&w[0]) {
        Some(v) => v,
        None => 0,
    };
    let b = match parse_usize(&w[1]) {
        Some(v) => v,
        None => 0,
    };
    (a, b)
}

/// The first twelve bytes of a trimmed hash (all of it when shorter), cut on a character
/// boundary.
pub open spec fn short_hash_cut(full: Seq<char>) -> bool {
    let n = if byte_len(full) < 12 {
        byte_len(full)
    } else {
        12
    };
    exists|k: int| 0 <= k <= full.len() && prefix_bytes(full, k) == n
}

/// The short form of the hash in a rebase `onto` file: its trimmed content cut to
/// twelve bytes.
pub open spec fn short_hash_of(content: Seq<char>) -> Seq<char> {
    let full = trim(content);
    let n = if byte_len(full) < 12 {
        byte_len(full)
    } else {
        12
    };
    full.take(choose|k: int| 0 <= k <= full.len() && prefix_bytes(full, k) == n)
}

/// The short form of the hash in a rebase `onto` file.
pub fn short_hash(content: &str) -> (r: String)
    requires
        short_hash_cut(trim(content@)),
    ensures
        r@ == short_hash_of(content@),
{
    let text = chars_of(content);
    let full = trim_exec(&text);
    let total = bytes_len(&full);
    let n: usize = if total < 12 {
        total
    } else {
        12
    };
    let ghost nn = if byte_len(full@) < 12 {
        byte_len(full@)
    } else {
        12
    };
    proof {
        if byte_len(full@) >= 12 {
            assert(n == 12);
        } else {
            assert(n == byte_len(full@));
        }
    }
    let k = match char_index_of_byte(&full, n) {
        Some(k) => k,
        None => {
            proof {
                let k0 = choose|k: int| 0 <= k <= full@.len() && prefix_bytes(full@, k) == nn;
                assert(prefix_bytes(full@, k0) != n);
            }
            0
        },
    };
    proof {
        let k0 = choose|k: int| 0 <= k <= full@.len() && prefix_bytes(full@, k) == nn;
        if k0 < k {
            crate::text::lemma_prefix_bytes_mono(full@, k0, k as int);
        }
        if k0 > k {
            crate::text::lemma_prefix_bytes_mono(full@, k as int, k0);
        }
    }
    let cut = slice_vec(&full, 0, k);
    proof {
        assert(cut@ == full@.take(k as int));
    }
    string_of(&cut)
}

/// The repository state from what was found: the current branch (none when it could
/// not be asked, read as `HEAD`), the distance to upstream, which of the rebase, merge,
/// cherry-pick and bisect markers exist in the git directory, and the content of the
/// rebase `onto` file when rebasing (`rebase-merge/onto`, else `rebase-apply/onto`).
pub fn repo_status(
    branch: Option<String>,
    ahead_behind: (usize, usize),
    rebase_merge_exists: bool,
    rebase_apply_exists: bool,
    onto_content: Option<String>,
    merge_head_exists: bool,
    cherry_pick_head_exists: bool,
    bisect_log_exists: bool,
) -> (s: RepoStatus)
    requires
        onto_content matches Some(c) ==> short_hash_cut(trim(c@)),
    ensures
        branch matches Some(b) ==> s.branch@ == b@,
        branch is None ==> s.branch@ == "HEAD"@,
        s.ahead == ahead_behind.0,
        s.behind == ahead_behind.1,
        s.is_rebasing == (rebase_merge_exists || rebase_apply_exists),
        s.is_merging == merge_head_exists,
        s.is_cherry_picking == cherry_pick_head_exists,
        s.is_bisecting == bisect_log_exists,
        s.is_rebasing && onto_content.is_some() ==> s.rebase_onto_hash@ == short_hash_of(onto_content.unwrap()@),
        !(s.is_rebasing && onto_content.is_some()) ==> s.rebase_onto_hash@.len() == 0,
{
    let is_rebasing = rebase_merge_exists || rebase_apply_exists;
    let rebase_onto_hash = if is_rebasing {
        match &onto_content {
            Some(c) => short_hash(c.as_str()),
            None => String::new(),
        }
    } else {
        String::new()
    };
    RepoStatus {
        branch: match branch {
            Some(b) => b,
            None => owned("HEAD"),
        },
        ahead: ahead_behind.0,
        behind: ahead_behind.1,
        is_rebasing,
        is_merging: merge_head_exists,
        is_cherry_picking: cherry_pick_head_exists,
        is_bisecting: bisect_log_exists,
        rebase_onto_hash,
    }
}

impl GitCommands {
    /// The command counting commits ahead of and behind upstream.
    pub fn ahead_behind(&self) -> (c: GitCommand)
        ensures
            is_git(c, self.path(), seq!["rev-list"@, "--left-right"@, "--count"@, "HEAD...@{u}"@]),
    {
        self.git(args4("rev-list", "--left-right", "--count", "HEAD...@{u}"))
    }

    /// The command continuing a rebase without opening an editor; it must succeed.
    pub fn continue_rebase(&self) -> (c: GitCommand)
        ensures
            c.program@ == "git"@,
            c.cwd@ == self.path(),
            strs(c.args@) == seq!["rebase"@, "--continue"@],
            c.env@.len() == 1,
            c.env@[0].0@ == "GIT_EDITOR"@,
            c.env@[0].1@ == "true"@,
            c.stdin is None,
    {
        let mut c = self.git(args2("rebase", "--continue"));
        c.env.push((owned("GIT_EDITOR"), owned("true")));
        c
    }

    /// The command aborting a rebase; it must succeed.
    pub fn abort_rebase(&self) -> (c: GitCommand)
        ensures
            is_git(c, self.path(), seq!["rebase"@, "--abort"@]),
    {
        self.git(args2("rebase", "--abort"))
    }

    /// The command aborting a merge; it must succeed.
    pub fn abort_merge(&self) -> (c: GitCommand)
        ensures
            is_git(c, self.path(), seq!["merge"@, "--abort"@]),
    {
        self.git(args2("merge", "--abort"))
    }
}

} // verus!

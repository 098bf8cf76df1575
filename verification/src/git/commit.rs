use vstd::prelude::*;

use crate::git::{args1, args2, args3, args4, is_git, CmdOutput, GitCommand, GitCommands};
use crate::model::{strs, Commit, CommitStatus, Divergence};
use crate::text::{
    chars_of, decimal, decimal_string, has_prefix, lines_of, parse_i64, parse_int, split_at_pat,
    split_lines, split_pat, split_words, splitn_at_char, splitn_char, string_of, strip_prefix, trim,
    trim_exec, words, cat, owned,
};

verus! {

/// The `git log` arguments that list commits.
pub open spec fn log_args(limit: nat, all: bool, branch: Option<Seq<char>>) -> Seq<Seq<char>> {
    seq!["log"@] + (if all {
        seq!["--all"@]
    } else {
        seq![]
    }) + (match branch {
        Some(b) => seq![b],
        None => seq![],
    }) + seq![
        "--max-count="@ + decimal(limit),
        "--format=%H|%s|%an|%ae|%at|%P|%D"@,
        "--no-show-signature"@,
        "--topo-order"@,
    ]
}

/// The tags named in a ref decoration: the pieces between `, ` that start with `tag: `,
/// without that prefix.
pub open spec fn tags_from(pieces: Seq<Seq<char>>) -> Seq<Seq<char>>
    decreases pieces.len(),
{
    if pieces.len() == 0 {
        seq![]
    } else {
        let rest = tags_from(pieces.drop_last());
        let d = trim(pieces.last());
        if has_prefix(d, "tag: "@) {
            rest.push(d.skip("tag: "@.len() as int))
        } else {
            rest
        }
    }
}

/// The other refs named in a ref decoration: the non-empty trimmed pieces that are not
/// tags.
pub open spec fn refs_from(pieces: Seq<Seq<char>>) -> Seq<Seq<char>>
    decreases pieces.len(),
{
    if pieces.len() == 0 {
        seq![]
    } else {
        let rest = refs_from(pieces.drop_last());
        let d = trim(pieces.last());
        if d.len() == 0 || has_prefix(d, "tag: "@) {
            rest
        } else {
            rest.push(d)
        }
    }
}

/// The tags of a decoration such as `HEAD -> main, tag: v1, origin/main`.
pub open spec fn decoration_tags(dec: Seq<char>) -> Seq<Seq<char>> {
    tags_from(split_pat(dec, ", "@))
}

/// The refs other than tags of a decoration; none for an empty decoration.
pub open spec fn decoration_refs(dec: Seq<char>) -> Seq<Seq<char>> {
    if dec.len() == 0 {
        seq![]
    } else {
        refs_from(split_pat(dec, ", "@))
    }
}

/// Every piece of a decoration that, trimmed, starts with `tag: ` gives one tag, the rest
/// of that piece, in order; no other piece gives a tag. Every other non-empty trimmed
/// piece gives one ref, in order.
pub proof fn lemma_tags_are_tag_pieces(pieces: Seq<Seq<char>>)
    ensures
        tags_from(pieces) == pieces.map_values(|p: Seq<char>| trim(p)).filter(
            |d: Seq<char>| d.len() >= 5 && d.take(5) == seq!['t', 'a', 'g', ':', ' '],
        ).map_values(|d: Seq<char>| d.skip(5)),
        refs_from(pieces) == pieces.map_values(|p: Seq<char>| trim(p)).filter(
            |d: Seq<char>| d.len() > 0 && !(d.len() >= 5 && d.take(5) == seq!['t', 'a', 'g', ':', ' ']),
        ),
    decreases pieces.len(),
{
    reveal_strlit("tag: ");
    assert("tag: "@ == seq!['t', 'a', 'g', ':', ' ']);
    let is_tag = |d: Seq<char>| d.len() >= 5 && d.take(5) == seq!['t', 'a', 'g', ':', ' '];
    let is_ref = |d: Seq<char>| d.len() > 0 && !(d.len() >= 5 && d.take(5) == seq!['t', 'a', 'g', ':', ' ']);
    let tr = pieces.map_values(|p: Seq<char>| trim(p));
    if pieces.len() == 0 {
        assert(tr.filter(is_tag) =~= Seq::<Seq<char>>::empty()) by {
            reveal(Seq::filter);
        }
        assert(tr.filter(is_ref) =~= Seq::<Seq<char>>::empty()) by {
            reveal(Seq::filter);
        }
    } else {
        lemma_tags_are_tag_pieces(pieces.drop_last());
        let tp = pieces.drop_last().map_values(|p: Seq<char>| trim(p));
        assert(tr == tp.push(trim(pieces.last())));
        tp.lemma_filter_push(trim(pieces.last()), is_tag);
        tp.lemma_filter_push(trim(pieces.last()), is_ref);
    }
}

/// The tags of a decoration are, in order, the rests of its `, `-separated pieces that
/// (trimmed) start with `tag: `; there are as many as such pieces.
pub proof fn lemma_decoration_tags(dec: Seq<char>)
    ensures
        decoration_tags(dec) == split_pat(dec, ", "@).map_values(|p: Seq<char>| trim(p)).filter(
            |d: Seq<char>| d.len() >= 5 && d.take(5) == seq!['t', 'a', 'g', ':', ' '],
        ).map_values(|d: Seq<char>| d.skip(5)),
        decoration_tags(dec).len() == split_pat(dec, ", "@).map_values(|p: Seq<char>| trim(p)).filter(
            |d: Seq<char>| d.len() >= 5 && d.take(5) == seq!['t', 'a', 'g', ':', ' '],
        ).len(),
{
    lemma_tags_are_tag_pieces(split_pat(dec, ", "@));
}

/// The pieces of a decoration.
fn decoration_pieces(dec: &[char]) -> (r: Vec<Vec<char>>)
    ensures
        r@.map_values(|v: Vec<char>| v@) == split_pat(dec@, ", "@),
{
    let sep = chars_of(", ");
    proof {
        reveal_strlit(", ");
    }
    split_at_pat(dec, &sep)
}

/// The tags named in a ref decoration.
pub fn extract_tags(dec: &[char]) -> (r: Vec<String>)
    ensures
        strs(r@) == decoration_tags(dec@),
{
    let pieces = decoration_pieces(dec);
    let ghost pv = pieces@.map_values(|v: Vec<char>| v@);
    let prefix = chars_of("tag: ");
    let mut r: Vec<String> = Vec::new();
    let mut i: usize = 0;
    while i < pieces.len()
        invariant
            i <= pieces.len(),
            pv == pieces@.map_values(|v: Vec<char>| v@),
            prefix@ == "tag: "@,
            strs(r@) == tags_from(pv.take(i as int)),
        decreases pieces.len() - i,
    {
        let d = trim_exec(&pieces[i]);
        proof {
            assert(pv.take(i + 1).drop_last() == pv.take(i as int));
            assert(pv.take(i + 1).last() == pieces@[i as int]@);
        }
        match strip_prefix(&d, &prefix) {
            Some(t) => {
                let ghost before = r@;
                r.push(string_of(&t));
                proof {
                    assert(strs(r@) == strs(before).push(t@));
                }
            },
            None => {},
        }
        i = i + 1;
    }
    proof {
        assert(pv.take(pv.len() as int) == pv);
    }
    r
}

/// The refs other than tags named in a ref decoration.
pub fn extract_refs(dec: &[char]) -> (r: Vec<String>)
    ensures
        strs(r@) == decoration_refs(dec@),
{
    let mut r: Vec<String> = Vec::new();
    if dec.len() == 0 {
        proof {
            assert(strs(r@) =~= Seq::<Seq<char>>::empty());
        }
        return r;
    }
    let pieces = decoration_pieces(dec);
    let ghost pv = pieces@.map_values(|v: Vec<char>| v@);
    let prefix = chars_of("tag: ");
    let mut i: usize = 0;
    proof {
        assert(strs(r@) =~= Seq::<Seq<char>>::empty());
    }
    while i < pieces.len()
        invariant
            i <= pieces.len(),
            pv == pieces@.map_values(|v: Vec<char>| v@),
            prefix@ == "tag: "@,
            strs(r@) == refs_from(pv.take(i as int)),
        decreases pieces.len() - i,
    {
        let d = trim_exec(&pieces[i]);
        proof {
            assert(pv.take(i + 1).drop_last() == pv.take(i as int));
            assert(pv.take(i + 1).last() == pieces@[i as int]@);
        }
        if d.len() > 0 && strip_prefix(&d, &prefix).is_none() {
            let ghost before = r@;
            r.push(string_of(&d));
            proof {
                assert(strs(r@) == strs(before).push(d@));
            }
        }
        i = i + 1;
    }
    proof {
        assert(pv.take(pv.len() as int) == pv);
    }
    r
}

/// The lines of `git log` output that describe a commit, split into their fields: those
/// with at least six `|`-separated fields (the seventh holds the rest of the line).
pub open spec fn commit_log_entries(lines: Seq<Seq<char>>) -> Seq<Seq<Seq<char>>>
    decreases lines.len(),
{
    if lines.len() == 0 {
        seq![]
    } else {
        let rest = commit_log_entries(lines.drop_last());
        let parts = splitn_char(lines.last(), '|', 7);
        if parts.len() < 6 {
            rest
        } else {
            rest.push(parts)
        }
    }
}

/// The commit described by one entry of `git log` output.
pub open spec fn commit_from_entry(c: Commit, parts: Seq<Seq<char>>, unpushed: Seq<Seq<char>>) -> bool {
    let dec = if parts.len() > 6 {
        parts[6]
    } else {
        ""@
    };
    &&& c.hash@ == parts[0]
    &&& c.name@ == parts[1]
    &&& c.author_name@ == parts[2]
    &&& c.author_email@ == parts[3]
    &&& c.unix_timestamp == (match parse_int(parts[4]) {
        Some(v) => if i64::MIN <= v <= i64::MAX {
            v
        } else {
            0
        },
        None => 0,
    })
    &&& strs(c.parents@) == words(parts[5])
    &&& strs(c.tags@) == decoration_tags(dec)
    &&& strs(c.refs@) == decoration_refs(dec)
    &&& c.status == (if unpushed.contains(parts[0]) {
        CommitStatus::Unpushed
    } else {
        CommitStatus::Pushed
    })
    &&& c.action@.len() == 0
    &&& c.extra_info@.len() == 0
    &&& c.divergence == Divergence::NotDiverged
}

/// Whether `h` is one of `hashes`.
fn contains_string(hashes: &[String], h: &String) -> (b: bool)
    ensures
        b == strs(hashes@).contains(h@),
{
    let mut i: usize = 0;
    while i < hashes.len()
        invariant
            i <= hashes.len(),
            forall|k: int| 0 <= k < i ==> hashes@[k]@ != h@,
        decreases hashes.len() - i,
    {
        if hashes[i] == *h {
            proof {
                assert(strs(hashes@)[i as int] == h@);
            }
            return true;
        }
        i = i + 1;
    }
    proof {
        if strs(hashes@).contains(h@) {
            let k = choose|k: int| 0 <= k < strs(hashes@).len() && strs(hashes@)[k] == h@;
            assert(hashes@[k]@ == h@);
        }
    }
    false
}

/// The strings of some character vectors.
pub fn strings_of(v: &Vec<Vec<char>>) -> (r: Vec<String>)
    ensures
        strs(r@) == v@.map_values(|x: Vec<char>| x@),
{
    let mut r: Vec<String> = Vec::new();
    let mut i: usize = 0;
    while i < v.len()
        invariant
            i <= v.len(),
            strs(r@) == v@.map_values(|x: Vec<char>| x@).take(i as int),
        decreases v.len() - i,
    {
        let ghost before = r@;
        let s = string_of(&v[i]);
        r.push(s);
        proof {
            assert(strs(r@) == strs(before).push(s@));
            assert(v@.map_values(|x: Vec<char>| x@).take(i + 1) == v@.map_values(|x: Vec<char>| x@).take(i as int).push(v@[i as int]@));
        }
        i = i + 1;
    }
    proof {
        assert(v@.map_values(|x: Vec<char>| x@).take(v@.len() as int) == v@.map_values(|x: Vec<char>| x@));
    }
    r
}

/// Reads the output of the `git log` command of `load_commits`: nothing when git failed,
/// else one commit per entry, marked unpushed when its hash is among `unpushed`.
pub fn parse_commit_log(out: &CmdOutput, unpushed: &[String]) -> (r: Vec<Commit>)
    ensures
        !out.success ==> r@.len() == 0,
        out.success ==> {
            let entries = commit_log_entries(lines_of(out.stdout@));
            &&& r@.len() == entries.len()
            &&& forall|k: int| 0 <= k < r@.len() ==> commit_from_entry(#[trigger] r@[k], entries[k], strs(unpushed@))
        },
{
    let mut r: Vec<Commit> = Vec::new();
    if !out.success {
        return r;
    }
    let text = chars_of(out.stdout.as_str());
    let lines = split_lines(&text);
    let ghost lv = lines@.map_values(|v: Vec<char>| v@);
    let mut i: usize = 0;
    while i < lines.len()
        invariant
            i <= lines.len(),
            lv == lines@.map_values(|v: Vec<char>| v@),
            r@.len() == commit_log_entries(lv.take(i as int)).len(),
            forall|k: int| 0 <= k < r@.len() ==> commit_from_entry(#[trigger] r@[k], commit_log_entries(lv.take(i as int))[k], strs(unpushed@)),
        decreases lines.len() - i,
    {
        let parts = splitn_at_char(&lines[i], '|', 7);
        let ghost pv = parts@.map_values(|v: Vec<char>| v@);
        proof {
            assert(lv.take(i + 1).drop_last() == lv.take(i as int));
            assert(lv.take(i + 1).last() == lines@[i as int]@);
        }
        if parts.len() >= 6 {
            let hash = string_of(&parts[0]);
            let name = string_of(&parts[1]);
            let author_name = string_of(&parts[2]);
            let author_email = string_of(&parts[3]);
            let unix_timestamp: i64 = match parse_i64(&parts[4]) {
                Some(v) => v,
                None => 0,
            };
            let parent_words = split_words(&parts[5]);
            let parents = strings_of(&parent_words);
            let empty: Vec<char> = Vec::new();
            let dec: &Vec<char> = if parts.len() > 6 {
                &parts[6]
            } else {
                &empty
            };
            proof {
                reveal_strlit("");
                assert(empty@ =~= ""@);
            }
            let tags = extract_tags(dec);
            let refs = extract_refs(dec);
            let status = if contains_string(unpushed, &hash) {
                CommitStatus::Unpushed
            } else {
                CommitStatus::Pushed
            };
            let c = Commit {
                hash,
                name,
                status,
                action: String::new(),
                tags,
                refs,
                extra_info: String::new(),
                author_name,
                author_email,
                unix_timestamp,
                parents,
                divergence: Divergence::NotDiverged,
            };
            proof {
                assert(commit_from_entry(c, pv, strs(unpushed@)));
            }
            r.push(c);
        }
        i = i + 1;
    }
    proof {
        assert(lv.take(lv.len() as int) == lv);
    }
    r
}

/// Reads the output of `unpushed_commit_hashes`: its lines, or nothing when git failed.
pub fn parse_unpushed_hashes(out: &CmdOutput) -> (r: Vec<String>)
    ensures
        !out.success ==> r@.len() == 0,
        out.success ==> strs(r@) == lines_of(out.stdout@),
{
    if !out.success {
        return Vec::new();
    }
    let text = chars_of(out.stdout.as_str());
    let lines = split_lines(&text);
    strings_of(&lines)
}

/// How a commit is reworded.
pub enum RewordPlan {
    /// The HEAD commit: this amend command.
    Amend(GitCommand),
    /// A commit further back: a rebase that stops at `hash` and gives it `message`.
    Rebase { hash: String, message: String },
}

impl GitCommands {
    /// The command listing up to `limit` commits of all branches.
    pub fn load_commits(&self, limit: usize) -> (c: GitCommand)
        ensures
            is_git(c, self.path(), log_args(limit as nat, true, None)),
    {
        self.load_commits_inner(limit, true, None)
    }

    /// The command listing up to `limit` commits reachable from `branch`.
    pub fn load_commits_for_branch(&self, branch: &str, limit: usize) -> (c: GitCommand)
        ensures
            is_git(c, self.path(), log_args(limit as nat, false, Some(branch@))),
    {
        self.load_commits_inner(limit, false, Some(branch))
    }

    /// The command listing up to `limit` commits, of all branches or of `branch`.
    pub fn load_commits_inner(&self, limit: usize, all: bool, branch: Option<&str>) -> (c: GitCommand)
        ensures
            is_git(c, self.path(), log_args(limit as nat, all, match branch {
                Some(b) => Some(b@),
                None => None,
            })),
    {
        let mut args = args1("log");
        if all {
            let ghost before = args@;
            args.push(owned("--all"));
            proof {
                assert(strs(args@) == strs(before).push("--all"@));
            }
        }
        match branch {
            Some(b) => {
                let ghost before = args@;
                args.push(owned(b));
                proof {
                    assert(strs(args@) == strs(before).push(b@));
                }
            },
            None => {},
        }
        let ghost mid = strs(args@);
        let count = cat("--max-count=", decimal_string(limit as u64).as_str());
        let ghost b1 = args@;
        args.push(count);
        let ghost b2 = args@;
        args.push(owned("--format=%H|%s|%an|%ae|%at|%P|%D"));
        let ghost b3 = args@;
        args.push(owned("--no-show-signature"));
        let ghost b4 = args@;
        args.push(owned("--topo-order"));
        proof {
            assert(strs(b2) == strs(b1).push(count@));
            assert(strs(b3) == strs(b2).push("--format=%H|%s|%an|%ae|%at|%P|%D"@));
            assert(strs(b4) == strs(b3).push("--no-show-signature"@));
            assert(strs(args@) == strs(b4).push("--topo-order"@));
            let bv = match branch {
                Some(b) => Some(b@),
                None => None,
            };
            assert(strs(args@) =~= log_args(limit as nat, all, bv));
        }
        self.git(args)
    }

    /// The command listing the hashes of the commits not yet pushed upstream.
    pub fn unpushed_commit_hashes(&self) -> (c: GitCommand)
        ensures
            is_git(c, self.path(), seq!["log"@, "@{u}..HEAD"@, "--format=%H"@]),
    {
        self.git(args3("log", "@{u}..HEAD", "--format=%H"))
    }

    /// The command committing the staged changes with `message`, signed off when asked;
    /// it must succeed.
    pub fn create_commit(&self, message: &str, sign_off: bool) -> (c: GitCommand)
        ensures
            is_git(c, self.path(), if sign_off {
                seq!["commit"@, "-m"@, message@, "--signoff"@]
            } else {
                seq!["commit"@, "-m"@, message@]
            }),
    {
        if sign_off {
            self.git(args4("commit", "-m", message, "--signoff"))
        } else {
            self.git(args3("commit", "-m", message))
        }
    }

    /// The command amending the last commit with the staged changes; it must succeed.
    pub fn amend_commit(&self) -> (c: GitCommand)
        ensures
            is_git(c, self.path(), seq!["commit"@, "--amend"@, "--no-edit"@]),
    {
        self.git(args3("commit", "--amend", "--no-edit"))
    }

    /// How commit `hash` is reworded to `message`, `head` being the HEAD commit: the HEAD
    /// commit by amending it; a commit further back by a rebase that rewords it.
    pub fn reword_commit(&self, hash: &str, message: &str, head: &str) -> (p: RewordPlan)
        ensures
            hash@ == head@ ==> (p matches RewordPlan::Amend(g) && is_git(g, self.path(), seq!["commit"@, "--amend"@, "-m"@, message@])),
            hash@ != head@ ==> (p matches RewordPlan::Rebase { hash: h, message: m } && h@ == hash@ && m@ == message@),
    {
        let h = owned(hash);
        let hd = owned(head);
        if h == hd {
            RewordPlan::Amend(self.git(args4("commit", "--amend", "-m", message)))
        } else {
            RewordPlan::Rebase { hash: h, message: owned(message) }
        }
    }

    /// The command reverting commit `hash`; it must succeed.
    pub fn revert_commit(&self, hash: &str) -> (c: GitCommand)
        ensures
            is_git(c, self.path(), seq!["revert"@, hash@]),
    {
        self.git(args2("revert", hash))
    }

    /// The command cherry-picking `hashes` in order; it must succeed.
    pub fn cherry_pick(&self, hashes: &[String]) -> (c: GitCommand)
        ensures
            is_git(c, self.path(), seq!["cherry-pick"@] + strs(hashes@)),
    {
        let mut args = args1("cherry-pick");
        let mut i: usize = 0;
        while i < hashes.len()
            invariant
                i <= hashes.len(),
                strs(args@) == seq!["cherry-pick"@] + strs(hashes@).take(i as int),
            decreases hashes.len() - i,
        {
            let ghost before = args@;
            let h = hashes[i].clone();
            args.push(h);
            proof {
                assert(strs(args@) == strs(before).push(h@));
                assert(strs(hashes@).take(i + 1) == strs(hashes@).take(i as int).push(hashes@[i as int]@));
            }
            i = i + 1;
        }
        proof {
            assert(strs(hashes@).take(hashes@.len() as int) == strs(hashes@));
        }
        self.git(args)
    }

    /// The command printing a commit's full message; its trimmed output is the message,
    /// and it must succeed.
    pub fn commit_message_full(&self, hash: &str) -> (c: GitCommand)
        ensures
            is_git(c, self.path(), seq!["log"@, "-1"@, "--format=%B"@, hash@]),
    {
        self.git(args4("log", "-1", "--format=%B", hash))
    }

    /// The command printing a commit's message body; its trimmed output is the body, and
    /// it must succeed.
    pub fn commit_message_body(&self, hash: &str) -> (c: GitCommand)
        ensures
            is_git(c, self.path(), seq!["log"@, "-1"@, "--format=%b"@, hash@]),
    {
        self.git(args4("log", "-1", "--format=%b", hash))
    }

    /// The command printing the diff a commit introduced (`<hash>^..<hash>`); its output
    /// is the diff, and it must succeed.
    pub fn commit_diff(&self, hash: &str) -> (c: GitCommand)
        ensures
            is_git(c, self.path(), seq!["diff"@, hash@ + "^.."@ + hash@]),
    {
        let range = crate::text::cat3(hash, "^..", hash);
        self.git(args2("diff", range.as_str()))
    }

    /// The command resetting to `hash` with `mode` (such as `--hard`); it must succeed.
    pub fn reset_to_commit(&self, hash: &str, mode: &str) -> (c: GitCommand)
        ensures
            is_git(c, self.path(), seq!["reset"@, mode@, hash@]),
    {
        self.git(args3("reset", mode, hash))
    }
}

} // verus!

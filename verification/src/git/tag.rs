use vstd::prelude::*;

use crate::git::{args2, args3, args4, args5, is_git, CmdOutput, GitCommand, GitCommands};
use crate::model::Tag;
use crate::text::{chars_of, lines_of, split_lines, splitn_at_char, splitn_char, string_of};

verus! {

/// The entries of `git for-each-ref` tag output: the lines with at least two
/// `|`-separated fields (the third holds the rest of the line).
pub open spec fn tag_entries(lines: Seq<Seq<char>>) -> Seq<Seq<Seq<char>>>
    decreases lines.len(),
{
    if lines.len() == 0 {
        seq![]
    } else {
        let parts = splitn_char(lines.last(), '|', 3);
        if parts.len() >= 2 {
            tag_entries(lines.drop_last()).push(parts)
        } else {
            tag_entries(lines.drop_last())
        }
    }
}

/// The tag described by one entry: name, hash, and the message when there is one.
pub open spec fn tag_from_entry(t: Tag, parts: Seq<Seq<char>>) -> bool {
    &&& t.name@ == parts[0]
    &&& t.hash@ == parts[1]
    &&& t.message@ == (if parts.len() > 2 {
        parts[2]
    } else {
        Seq::<char>::empty()
    })
}

/// Reads the output of `load_tags`: nothing when git failed, else one tag per entry.
pub fn parse_tags(out: &CmdOutput) -> (r: Vec<Tag>)
    ensures
        !out.success ==> r@.len() == 0,
        out.success ==> {
            let entries = tag_entries(lines_of(out.stdout@));
            &&& r@.len() == entries.len()
            &&& forall|k: int| 0 <= k < r@.len() ==> tag_from_entry(#[trigger] r@[k], entries[k])
        },
{
    let mut r: Vec<Tag> = Vec::new();
    if !out.success {
        return r;
    }
    let text = chars_of(out.stdout.as_str());
    let lines = split_lines(&text);
    let ghost lv = lines@.map_values(|v: Vec<char>| v@);
    let mut i: usize = 0;
    while i < lines.len()
        invariant
            i <= lines.len(),
            lv == lines@.map_values(|v: Vec<char>| v@),
            r@.len() == tag_entries(lv.take(i as int)).len(),
            forall|k: int| 0 <= k < r@.len() ==> tag_from_entry(#[trigger] r@[k], tag_entries(lv.take(i as int))[k]),
        decreases lines.len() - i,
    {
        proof {
            assert(lv.take(i + 1).drop_last() == lv.take(i as int));
            assert(lv.take(i + 1).last() == lines@[i as int]@);
        }
        let parts = splitn_at_char(&lines[i], '|', 3);
        if parts.len() >= 2 {
            let message = if parts.len() > 2 {
                string_of(&parts[2])
            } else {
                String::new()
            };
            let t = Tag { name: string_of(&parts[0]), hash: string_of(&parts[1]), message };
            r.push(t);
        }
        i = i + 1;
    }
    proof {
        assert(lv.take(lv.len() as int) == lv);
    }
    r
}

impl GitCommands {
    /// The command listing the tags, newest first, as `name|hash|subject`.
    pub fn load_tags(&self) -> (c: GitCommand)
        ensures
            is_git(c, self.path(), seq![
                "for-each-ref"@,
                "--sort=-creatordate"@,
                "--format=%(refname:short)|%(objectname:short)|%(subject)"@,
                "refs/tags/"@,
            ]),
    {
        self.git(
            crate::git::args4(
                "for-each-ref",
                "--sort=-creatordate",
                "--format=%(refname:short)|%(objectname:short)|%(subject)",
                "refs/tags/",
            ),
        )
    }

    /// The command creating tag `name`: lightweight without a message, annotated with
    /// one; it must succeed.
    pub fn create_tag(&self, name: &str, message: &str) -> (c: GitCommand)
        ensures
            message@.len() == 0 ==> is_git(c, self.path(), seq!["tag"@, name@]),
            message@.len() > 0 ==> is_git(c, self.path(), seq!["tag"@, "-a"@, name@, "-m"@, message@]),
    {
        if message.unicode_len() == 0 {
            self.git(args2("tag", name))
        } else {
            self.git(args5("tag", "-a", name, "-m", message))
        }
    }

    /// The command deleting tag `name`; it must succeed.
    pub fn delete_tag(&self, name: &str) -> (c: GitCommand)
        ensures
            is_git(c, self.path(), seq!["tag"@, "-d"@, name@]),
    {
        self.git(args3("tag", "-d", name))
    }

    /// The command pushing tag `name` to `origin`; it must succeed.
    pub fn push_tag(&self, name: &str) -> (c: GitCommand)
        ensures
            is_git(c, self.path(), seq!["push"@, "origin"@, name@]),
    {
        self.git(args3("push", "origin", name))
    }
}

} // verus!

use vstd::prelude::*;

use crate::model::strs;
use crate::text::{chars_of, comps, join_chars, join_with, owned, string_of, trim, trim_exec};

verus! {

/// What an entry of the commit copy menu puts on the clipboard.
#[derive(Debug, Clone, Copy, PartialEq, Eq, Structural)]
pub enum CopyItem {
    Hash,
    Subject,
    /// Subject and body.
    Message,
    Body,
    Url,
    Diff,
    Author,
    Tags,
    Cancel,
}

/// An entry of the commit copy menu: what it copies, its label, the note shown when it is
/// disabled, its key, and whether it can be chosen.
pub struct CopyMenuEntry {
    pub item: CopyItem,
    pub label: String,
    pub description: String,
    pub key: Option<char>,
    pub enabled: bool,
}

/// An entry as (item, label, description, key, enabled).
pub open spec fn entry_view(e: CopyMenuEntry) -> (CopyItem, Seq<char>, Seq<char>, Option<char>, bool) {
    (e.item, e.label@, e.description@, e.key, e.enabled)
}

/// The copy menu of a commit, in order: hash, subject, message, body (disabled, with a
/// note, when the commit has no body), URL, diff, author, tags (disabled, with a note,
/// when it has none), cancel.
pub open spec fn copy_menu(has_body: bool, has_tags: bool) -> Seq<(CopyItem, Seq<char>, Seq<char>, Option<char>, bool)> {
    seq![
        (CopyItem::Hash, "Commit hash"@, ""@, None, true),
        (CopyItem::Subject, "Commit subject"@, ""@, Some('s'), true),
        (CopyItem::Message, "Commit message (subject and body)"@, ""@, Some('m'), true),
        (CopyItem::Body, "Commit message body"@, if has_body { ""@ } else { "Commit has no message body"@ }, Some('b'), has_body),
        (CopyItem::Url, "Commit URL"@, ""@, Some('u'), true),
        (CopyItem::Diff, "Commit diff"@, ""@, Some('d'), true),
        (CopyItem::Author, "Commit author"@, ""@, Some('a'), true),
        (CopyItem::Tags, "Commit tags"@, if has_tags { ""@ } else { "Commit has no tags"@ }, Some('t'), has_tags),
        (CopyItem::Cancel, "Cancel"@, ""@, None, true),
    ]
}

fn entry(item: CopyItem, label: &str, description: &str, key: Option<char>, enabled: bool) -> (e: CopyMenuEntry)
    ensures
        entry_view(e) == (item, label@, description@, key, enabled),
{
    CopyMenuEntry { item, label: owned(label), description: owned(description), key, enabled }
}

/// The views of menu entries.
pub open spec fn entries_view(v: Seq<CopyMenuEntry>) -> Seq<(CopyItem, Seq<char>, Seq<char>, Option<char>, bool)> {
    v.map_values(|e: CopyMenuEntry| entry_view(e))
}

/// The copy menu of a commit (see `copy_menu`).
pub fn copy_menu_entries(has_body: bool, has_tags: bool) -> (r: Vec<CopyMenuEntry>)
    ensures
        entries_view(r@) == copy_menu(has_body, has_tags),
{
    let mut r: Vec<CopyMenuEntry> = Vec::new();
    r.push(entry(CopyItem::Hash, "Commit hash", "", None, true));
    r.push(entry(CopyItem::Subject, "Commit subject", "", Some('s'), true));
    r.push(entry(CopyItem::Message, "Commit message (subject and body)", "", Some('m'), true));
    let body_note = if has_body {
        ""
    } else {
        "Commit has no message body"
    };
    r.push(entry(CopyItem::Body, "Commit message body", body_note, Some('b'), has_body));
    r.push(entry(CopyItem::Url, "Commit URL", "", Some('u'), true));
    r.push(entry(CopyItem::Diff, "Commit diff", "", Some('d'), true));
    r.push(entry(CopyItem::Author, "Commit author", "", Some('a'), true));
    let tags_note = if has_tags {
        ""
    } else {
        "Commit has no tags"
    };
    r.push(entry(CopyItem::Tags, "Commit tags", tags_note, Some('t'), has_tags));
    r.push(entry(CopyItem::Cancel, "Cancel", "", None, true));
    proof {
        assert(entries_view(r@) =~= copy_menu(has_body, has_tags));
    }
    r
}

/// Whether a commit's body (as `commit_message_body` gives it) has any text.
pub fn has_message_body(body: &str) -> (b: bool)
    ensures
        b == (trim(body@).len() > 0),
{
    let t = trim_exec(&chars_of(body));
    t.len() > 0
}

/// A commit's tags as copied: joined with `, `.
pub fn tags_text(tags: &Vec<String>) -> (r: String)
    ensures
        r@ == join_with(strs(tags@), ", "@),
{
    let mut parts: Vec<Vec<char>> = Vec::new();
    let mut i: usize = 0;
    proof {
        assert(comps(parts@) =~= strs(tags@).take(0));
    }
    while i < tags.len()
        invariant
            i <= tags@.len(),
            comps(parts@) == strs(tags@).take(i as int),
        decreases tags@.len() - i,
    {
        let c = chars_of(tags[i].as_str());
        proof {
            assert(comps(parts@.push(c)) =~= comps(parts@).push(c@));
            assert(strs(tags@).take(i + 1) =~= strs(tags@).take(i as int).push(tags@[i as int]@));
        }
        parts.push(c);
        i = i + 1;
    }
    proof {
        assert(strs(tags@).take(tags@.len() as int) == strs(tags@));
    }
    let sep = chars_of(", ");
    let joined = join_chars(&parts, &sep);
    string_of(&joined)
}

} // verus!

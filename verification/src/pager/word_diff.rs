use vstd::prelude::*;

use crate::pager::InlineSegment;
use crate::text::{byte_len, bytes_len, chars_of, is_whitespace, is_ws, trim, trim_exec};

verus! {

/// The kind of one change of a diff.
#[derive(Debug, Clone, Copy, PartialEq, Eq, Structural)]
pub enum DiffTag {
    Equal,
    Delete,
    Insert,
}

/// One change of a diff: a piece of text that is kept, deleted or inserted.
#[derive(Debug, Clone)]
pub struct TextChange {
    pub tag: DiffTag,
    pub value: String,
}

/// The kinds and texts of changes.
pub open spec fn changes_view(v: Seq<TextChange>) -> Seq<(DiffTag, Seq<char>)> {
    v.map_values(|c: TextChange| (c.tag, c.value@))
}

/// The changes that `similar` finds between the words and whitespace runs of two texts
/// (`TextDiff::configure().diff_unicode_words(old, new).iter_all_changes()`).
pub uninterp spec fn unicode_word_changes(old: Seq<char>, new: Seq<char>) -> Seq<(DiffTag, Seq<char>)>;

/// The word-level changes between two texts, by `similar`'s `diff_unicode_words`
/// (Myers' algorithm, no deadline); the result depends on the two texts alone.
#[verifier::external_body]
fn diff_unicode_words(old: &str, new: &str) -> (r: Vec<TextChange>)
    ensures
        changes_view(r@) == unicode_word_changes(old@, new@),
{
    let diff = similar::TextDiff::configure().diff_unicode_words(old, new);
    let mut out = Vec::new();
    for c in diff.iter_all_changes() {
        let tag = match c.tag() {
            similar::ChangeTag::Equal => DiffTag::Equal,
            similar::ChangeTag::Delete => DiffTag::Delete,
            similar::ChangeTag::Insert => DiffTag::Insert,
        };
        out.push(TextChange { tag, value: c.value().to_string() });
    }
    out
}

/// The views of segments.
pub open spec fn segments_view(v: Seq<InlineSegment>) -> Seq<(Seq<char>, bool)> {
    v.map_values(|s: InlineSegment| (s.text@, s.emphasized))
}

/// The segments of the old side: kept and deleted pieces, the deleted ones emphasized.
pub open spec fn old_segments(ch: Seq<(DiffTag, Seq<char>)>) -> Seq<(Seq<char>, bool)>
    decreases ch.len(),
{
    if ch.len() == 0 {
        seq![]
    } else if ch.last().0 == DiffTag::Insert {
        old_segments(ch.drop_last())
    } else {
        old_segments(ch.drop_last()).push((ch.last().1, ch.last().0 == DiffTag::Delete))
    }
}

/// The segments of the new side: kept and inserted pieces, the inserted ones emphasized.
pub open spec fn new_segments(ch: Seq<(DiffTag, Seq<char>)>) -> Seq<(Seq<char>, bool)>
    decreases ch.len(),
{
    if ch.len() == 0 {
        seq![]
    } else if ch.last().0 == DiffTag::Delete {
        new_segments(ch.drop_last())
    } else {
        new_segments(ch.drop_last()).push((ch.last().1, ch.last().0 == DiffTag::Insert))
    }
}

/// The new side shows, in order, every change that is not a deletion, each emphasized
/// exactly when it is an insertion (kept text plain); the old side shows every change
/// that is not an insertion, each emphasized exactly when it is a deletion.
pub proof fn lemma_segments_mark_changes(ch: Seq<(DiffTag, Seq<char>)>)
    ensures
        new_segments(ch) == ch.filter(|c: (DiffTag, Seq<char>)| c.0 != DiffTag::Delete).map_values(
            |c: (DiffTag, Seq<char>)| (c.1, c.0 == DiffTag::Insert),
        ),
        old_segments(ch) == ch.filter(|c: (DiffTag, Seq<char>)| c.0 != DiffTag::Insert).map_values(
            |c: (DiffTag, Seq<char>)| (c.1, c.0 == DiffTag::Delete),
        ),
    decreases ch.len(),
{
    let not_del = |c: (DiffTag, Seq<char>)| c.0 != DiffTag::Delete;
    let not_ins = |c: (DiffTag, Seq<char>)| c.0 != DiffTag::Insert;
    if ch.len() == 0 {
        assert(ch.filter(not_del) =~= Seq::<(DiffTag, Seq<char>)>::empty()) by {
            reveal(Seq::filter);
        }
        assert(ch.filter(not_ins) =~= Seq::<(DiffTag, Seq<char>)>::empty()) by {
            reveal(Seq::filter);
        }
    } else {
        lemma_segments_mark_changes(ch.drop_last());
        assert(ch == ch.drop_last().push(ch.last()));
        ch.drop_last().lemma_filter_push(ch.last(), not_del);
        ch.drop_last().lemma_filter_push(ch.last(), not_ins);
    }
}

/// `a + b`, or `usize::MAX` when larger.
pub open spec fn sat_add(a: nat, b: nat) -> nat {
    if a + b > usize::MAX {
        usize::MAX as nat
    } else {
        a + b
    }
}

/// `n`, or `usize::MAX` when larger.
pub open spec fn sat(n: nat) -> nat {
    if n > usize::MAX {
        usize::MAX as nat
    } else {
        n
    }
}

/// Whether `s` holds a character other than whitespace.
pub open spec fn has_content(s: Seq<char>) -> bool {
    exists|i: int| 0 <= i < s.len() && !is_ws(s[i])
}

/// The bytes of the kept pieces with content, trimmed.
pub open spec fn unchanged_len(ch: Seq<(DiffTag, Seq<char>)>) -> nat
    decreases ch.len(),
{
    if ch.len() == 0 {
        0
    } else if ch.last().0 == DiffTag::Equal && has_content(ch.last().1) {
        sat_add(unchanged_len(ch.drop_last()), sat(byte_len(trim(ch.last().1))))
    } else {
        unchanged_len(ch.drop_last())
    }
}

/// Word-level segments of a pair of modified lines, when at least a fifth of their
/// trimmed content (by bytes, the longer line counting) is unchanged.
pub open spec fn word_diff(old: Seq<char>, new: Seq<char>) -> Option<(Seq<(Seq<char>, bool)>, Seq<(Seq<char>, bool)>)> {
    let ch = unicode_word_changes(old, new);
    let a = sat(byte_len(trim(old)));
    let b = sat(byte_len(trim(new)));
    let total = if a > b {
        a
    } else {
        b
    };
    let u = unchanged_len(ch);
    if total == 0 || 5 * u < total {
        None
    } else {
        Some((old_segments(ch), new_segments(ch)))
    }
}

/// When word-level segments are given for two lines, the new line's are the word
/// changes that are not deletions, only insertions emphasized, and the old line's those
/// that are not insertions, only deletions emphasized.
pub proof fn lemma_word_diff_emphasis(old: Seq<char>, new: Seq<char>)
    ensures
        word_diff(old, new) matches Some((o, n)) ==> {
            let ch = unicode_word_changes(old, new);
            &&& n == ch.filter(|c: (DiffTag, Seq<char>)| c.0 != DiffTag::Delete).map_values(
                |c: (DiffTag, Seq<char>)| (c.1, c.0 == DiffTag::Insert),
            )
            &&& o == ch.filter(|c: (DiffTag, Seq<char>)| c.0 != DiffTag::Insert).map_values(
                |c: (DiffTag, Seq<char>)| (c.1, c.0 == DiffTag::Delete),
            )
        },
{
    lemma_segments_mark_changes(unicode_word_changes(old, new));
}

/// Whether `s` holds a character other than whitespace.
fn has_meaningful_content(s: &[char]) -> (b: bool)
    ensures
        b == has_content(s@),
{
    let mut i: usize = 0;
    while i < s.len()
        invariant
            i <= s.len(),
            forall|k: int| 0 <= k < i ==> is_ws(s@[k]),
        decreases s.len() - i,
    {
        if !is_whitespace(s[i]) {
            return true;
        }
        i = i + 1;
    }
    false
}

/// Word-level diff segments for a pair of modified lines, or none when the lines are
/// too different for word-level highlighting to help.
pub fn compute_word_diff(old_text: &str, new_text: &str) -> (r: Option<(Vec<InlineSegment>, Vec<InlineSegment>)>)
    ensures
        match r {
            Some((o, n)) => word_diff(old_text@, new_text@) == Some((segments_view(o@), segments_view(n@))),
            None => word_diff(old_text@, new_text@) is None,
        },
{
    let changes = diff_unicode_words(old_text, new_text);
    let ghost ch = changes_view(changes@);
    let mut old_segs: Vec<InlineSegment> = Vec::new();
    let mut new_segs: Vec<InlineSegment> = Vec::new();
    let mut unchanged: usize = 0;
    let mut i: usize = 0;
    while i < changes.len()
        invariant
            i <= changes.len(),
            ch == changes_view(changes@),
            segments_view(old_segs@) == old_segments(ch.take(i as int)),
            segments_view(new_segs@) == new_segments(ch.take(i as int)),
            unchanged == unchanged_len(ch.take(i as int)),
        decreases changes.len() - i,
    {
        let c = &changes[i];
        proof {
            assert(ch.take(i + 1).drop_last() == ch.take(i as int));
            assert(ch.take(i + 1).last() == (c.tag, c.value@));
        }
        let text = c.value.clone();
        match c.tag {
            DiffTag::Equal => {
                let tv = chars_of(text.as_str());
                if has_meaningful_content(&tv) {
                    let t = trim_exec(&tv);
                    let n = bytes_len(&t);
                    unchanged = unchanged.saturating_add(n);
                }
                let ghost bo = old_segs@;
                let ghost bn = new_segs@;
                old_segs.push(InlineSegment { text: text.clone(), emphasized: false });
                new_segs.push(InlineSegment { text, emphasized: false });
                proof {
                    assert(segments_view(old_segs@) == segments_view(bo).push((c.value@, false)));
                    assert(segments_view(new_segs@) == segments_view(bn).push((c.value@, false)));
                }
            },
            DiffTag::Delete => {
                let ghost bo = old_segs@;
                old_segs.push(InlineSegment { text, emphasized: true });
                proof {
                    assert(segments_view(old_segs@) == segments_view(bo).push((c.value@, true)));
                }
            },
            DiffTag::Insert => {
                let ghost bn = new_segs@;
                new_segs.push(InlineSegment { text, emphasized: true });
                proof {
                    assert(segments_view(new_segs@) == segments_view(bn).push((c.value@, true)));
                }
            },
        }
        i = i + 1;
    }
    proof {
        assert(ch.take(ch.len() as int) == ch);
    }
    let ov = chars_of(old_text);
    let nv = chars_of(new_text);
    let a = bytes_len(&trim_exec(&ov));
    let b = bytes_len(&trim_exec(&nv));
    let total = if a > b {
        a
    } else {
        b
    };
    if total == 0 || (unchanged as u128) * 5 < (total as u128) {
        return None;
    }
    Some((old_segs, new_segs))
}

} // verus!

use vstd::prelude::*;

use crate::pager::word_diff::{compute_word_diff, segments_view, word_diff, changes_view, DiffTag, TextChange};
use crate::pager::{expand_tabs_chars, expanded, has_tab, ChangeType, DiffLine, InlineSegment};
use crate::text::{
    chars_of, has_prefix, lines_of, slice_vec, split_lines, starts_with, string_of, trim_end,
    trim_end_exec,
};

verus! {

/// A numbered line of one side: its number and text.
pub type SideLine = (nat, Seq<char>);

/// The abstract content of a diff row: both sides, the change, and the word-level
/// segments of both sides.
pub type RowView = (Option<SideLine>, Option<SideLine>, ChangeType, Option<Seq<(Seq<char>, bool)>>, Option<Seq<(Seq<char>, bool)>>);

/// The abstract content of a row.
pub open spec fn row_view(d: DiffLine) -> RowView {
    (
        match d.old_line {
            Some((n, t)) => Some((n as nat, t@)),
            None => None,
        },
        match d.new_line {
            Some((n, t)) => Some((n as nat, t@)),
            None => None,
        },
        d.change_type,
        match d.old_segments {
            Some(v) => Some(segments_view(v@)),
            None => None,
        },
        match d.new_segments {
            Some(v) => Some(segments_view(v@)),
            None => None,
        },
    )
}

/// A row of a single-file diff: no file header, no notes, section 0.
pub open spec fn is_plain_row(d: DiffLine) -> bool {
    &&& d.file_header is None
    &&& d.comment_notes@.len() == 0
    &&& d.section_index == 0
}

/// The rows of a list of diff lines.
pub open spec fn rows_view(v: Seq<DiffLine>) -> Seq<RowView> {
    v.map_values(|d: DiffLine| row_view(d))
}

/// The row pairing an old line with a new one: both makes a modification, with
/// word-level segments when they help; one alone a deletion or an insertion.
pub open spec fn pair_row(o: Option<SideLine>, n: Option<SideLine>) -> RowView {
    match (o, n) {
        (Some(a), Some(b)) => {
            let w = word_diff(a.1, b.1);
            (o, n, ChangeType::Modified, match w {
                Some(p) => Some(p.0),
                None => None,
            }, match w {
                Some(p) => Some(p.1),
                None => None,
            })
        },
        (Some(_), None) => (o, n, ChangeType::Delete, None, None),
        _ => (o, n, ChangeType::Insert, None, None),
    }
}

/// Deleted lines paired with inserted lines on the same rows, GitHub style: row `j`
/// shows the `j`-th deletion beside the `j`-th insertion.
pub open spec fn pair_rows(dels: Seq<SideLine>, ins: Seq<SideLine>) -> Seq<RowView> {
    let n = if dels.len() > ins.len() {
        dels.len()
    } else {
        ins.len()
    };
    Seq::new(n, |j: int| pair_row(
        if j < dels.len() { Some(dels[j]) } else { None },
        if j < ins.len() { Some(ins[j]) } else { None },
    ))
}

/// The abstract numbered lines.
pub open spec fn side_view(v: Seq<(usize, String)>) -> Seq<SideLine> {
    v.map_values(|p: (usize, String)| (p.0 as nat, p.1@))
}

/// Appends the rows pairing the pending deletions with the pending insertions, and
/// empties both.
fn flush(dels: &mut Vec<(usize, String)>, ins: &mut Vec<(usize, String)>, out: &mut Vec<DiffLine>)
    requires
        forall|k: int| 0 <= k < old(out)@.len() ==> is_plain_row(#[trigger] old(out)@[k]),
    ensures
        rows_view(final(out)@) == rows_view(old(out)@) + pair_rows(side_view(old(dels)@), side_view(old(ins)@)),
        forall|k: int| 0 <= k < final(out)@.len() ==> is_plain_row(#[trigger] final(out)@[k]),
        final(dels)@.len() == 0,
        final(ins)@.len() == 0,
{
    let max_len = if dels.len() > ins.len() {
        dels.len()
    } else {
        ins.len()
    };
    let ghost dv = side_view(dels@);
    let ghost iv = side_view(ins@);
    let ghost start = rows_view(out@);
    let mut j: usize = 0;
    while j < max_len
        invariant
            j <= max_len,
            max_len == (if dels@.len() > ins@.len() { dels@.len() } else { ins@.len() }),
            dv == side_view(dels@),
            iv == side_view(ins@),
            rows_view(out@) == start + pair_rows(dv, iv).take(j as int),
            forall|k: int| 0 <= k < out@.len() ==> is_plain_row(#[trigger] out@[k]),
        decreases max_len - j,
    {
        let row = if j < dels.len() && j < ins.len() {
            let ot = dels[j].1.clone();
            let nt = ins[j].1.clone();
            let w = compute_word_diff(ot.as_str(), nt.as_str());
            let (os, ns) = match w {
                Some((a, b)) => (Some(a), Some(b)),
                None => (None, None),
            };
            DiffLine {
                old_line: Some((dels[j].0, ot)),
                new_line: Some((ins[j].0, nt)),
                change_type: ChangeType::Modified,
                old_segments: os,
                new_segments: ns,
                file_header: None,
                comment_notes: Vec::new(),
                section_index: 0,
            }
        } else if j < dels.len() {
            DiffLine {
                old_line: Some((dels[j].0, dels[j].1.clone())),
                new_line: None,
                change_type: ChangeType::Delete,
                old_segments: None,
                new_segments: None,
                file_header: None,
                comment_notes: Vec::new(),
                section_index: 0,
            }
        } else {
            DiffLine {
                old_line: None,
                new_line: Some((ins[j].0, ins[j].1.clone())),
                change_type: ChangeType::Insert,
                old_segments: None,
                new_segments: None,
                file_header: None,
                comment_notes: Vec::new(),
                section_index: 0,
            }
        };
        proof {
            let o = if j < dv.len() { Some(dv[j as int]) } else { None };
            let n = if j < iv.len() { Some(iv[j as int]) } else { None };
            assert(row_view(row).0 == o);
            assert(row_view(row).1 == n);
            assert(row_view(row) == pair_row(o, n));
            assert(pair_rows(dv, iv).take(j + 1) == pair_rows(dv, iv).take(j as int).push(pair_row(o, n)));
        }
        let ghost before = out@;
        out.push(row);
        proof {
            assert(rows_view(out@) == rows_view(before).push(row_view(row)));
        }
        j = j + 1;
    }
    proof {
        assert(pair_rows(dv, iv).take(max_len as int) == pair_rows(dv, iv));
    }
    dels.clear();
    ins.clear();
}

/// What has been read of a unified diff: the rows so far, the next old and new line
/// numbers, whether a hunk has started, and the pending deletions and insertions.
pub type UnifiedScan = (Seq<RowView>, nat, nat, bool, Seq<SideLine>, Seq<SideLine>);

/// The displayed text of a diff line's content: trailing whitespace removed, tabs
/// expanded.
pub open spec fn shown(content: Seq<char>, tab_width: nat) -> Seq<char> {
    expanded(trim_end(content), tab_width)
}

/// Reads one line of a unified diff.  A hunk header pairs up what is pending and starts
/// a hunk; before the first hunk, and for `\` lines, nothing happens; `-` and `+` lines
/// are pending deletions and insertions; any other line is context, shown on both sides
/// after what is pending.
pub open spec fn unified_step(st: UnifiedScan, l: Seq<char>, tab_width: nat) -> UnifiedScan {
    let (rows, o, n, in_hunk, dels, ins) = st;
    if has_prefix(l, "@@"@) {
        (rows + pair_rows(dels, ins), o, n, true, seq![], seq![])
    } else if !in_hunk {
        st
    } else if l.len() > 0 && l[0] == '\\' {
        st
    } else if l.len() > 0 && l[0] == '-' {
        (rows, o + 1, n, in_hunk, dels.push((o, shown(l.skip(1), tab_width))), ins)
    } else if l.len() > 0 && l[0] == '+' {
        (rows, o, n + 1, in_hunk, dels, ins.push((n, shown(l.skip(1), tab_width))))
    } else {
        let ctx = if l.len() > 0 && l[0] == ' ' {
            l.skip(1)
        } else {
            l
        };
        let text = shown(ctx, tab_width);
        (
            rows + pair_rows(dels, ins) + seq![(Some((o, text)), Some((n, text)), ChangeType::Equal, None, None)],
            o + 1,
            n + 1,
            in_hunk,
            seq![],
            seq![],
        )
    }
}

/// The scan of all `lines`.
pub open spec fn unified_scan(lines: Seq<Seq<char>>, tab_width: nat) -> UnifiedScan
    decreases lines.len(),
{
    if lines.len() == 0 {
        (seq![], 1, 1, false, seq![], seq![])
    } else {
        unified_step(unified_scan(lines.drop_last(), tab_width), lines.last(), tab_width)
    }
}

/// The side-by-side rows of a unified diff, trusting its `-`, `+` and context marks.
pub open spec fn unified_rows(diff: Seq<char>, tab_width: nat) -> Seq<RowView> {
    let st = unified_scan(lines_of(diff), tab_width);
    st.0 + pair_rows(st.4, st.5)
}

/// No line of `lines` holds a tab.
pub open spec fn no_tabs(lines: Seq<Seq<char>>) -> bool {
    forall|i: int| 0 <= i < lines.len() ==> !has_tab(#[trigger] lines[i])
}

/// The shown text of a line's content from position `from`.
fn shown_text(l: &[char], from: usize, tab_width: usize) -> (r: String)
    requires
        from <= l@.len(),
        tab_width > 0 || !has_tab(l@),
    ensures
        r@ == shown(l@.skip(from as int), tab_width as nat),
{
    let rest = slice_vec(l, from, l.len());
    let t = trim_end_exec(&rest);
    proof {
        crate::text::lemma_trim_end_prefix(rest@);
        if tab_width == 0 && has_tab(t@) {
            let k = choose|k: int| 0 <= k < t@.len() && t@[k] == '\t';
            assert(rest@[k] == l@[from + k]);
            assert(l@[from + k] == '\t');
        }
    }
    let e = expand_tabs_chars(&t, tab_width);
    string_of(&e)
}

/// Builds side-by-side rows directly from a unified diff's `-`, `+` and context marks,
/// without diffing again.  Line numbers count from 1 within the old and the new text of
/// the hunks taken together.
pub fn compute_side_by_side_from_unified_diff(diff: &str, tab_width: usize) -> (rows: Vec<DiffLine>)
    requires
        tab_width > 0 || no_tabs(lines_of(diff@)),
    ensures
        rows_view(rows@) == unified_rows(diff@, tab_width as nat),
        forall|k: int| 0 <= k < rows@.len() ==> is_plain_row(#[trigger] rows@[k]),
{
    let text = chars_of(diff);
    let lines = split_lines(&text);
    let ghost lv = lines@.map_values(|v: Vec<char>| v@);
    let mut out: Vec<DiffLine> = Vec::new();
    let mut old_num: u128 = 1;
    let mut new_num: u128 = 1;
    let mut in_hunk = false;
    let mut dels: Vec<(usize, String)> = Vec::new();
    let mut ins: Vec<(usize, String)> = Vec::new();
    let at = chars_of("@@");
    let mut i: usize = 0;
    proof {
        assert(lv.take(0) =~= Seq::<Seq<char>>::empty());
        assert(rows_view(out@) =~= Seq::<RowView>::empty());
        assert(side_view(dels@) =~= Seq::<SideLine>::empty());
        assert(side_view(ins@) =~= Seq::<SideLine>::empty());
    }
    while i < lines.len()
        invariant
            i <= lines.len(),
            lv == lines@.map_values(|v: Vec<char>| v@),
            lv == lines_of(diff@),
            tab_width > 0 || no_tabs(lv),
            at@ == "@@"@,
            old_num <= i + 1,
            new_num <= i + 1,
            unified_scan(lv.take(i as int), tab_width as nat) == (
                rows_view(out@),
                old_num as nat,
                new_num as nat,
                in_hunk,
                side_view(dels@),
                side_view(ins@),
            ),
            forall|k: int| 0 <= k < out@.len() ==> is_plain_row(#[trigger] out@[k]),
        decreases lines.len() - i,
    {
        let l = &lines[i];
        proof {
            assert(lv.take(i + 1).drop_last() == lv.take(i as int));
            assert(lv.take(i + 1).last() == l@);
            assert(lv[i as int] == l@);
        }
        if starts_with(l, &at) {
            flush(&mut dels, &mut ins, &mut out);
            in_hunk = true;
            proof {
                assert(side_view(dels@) =~= Seq::<SideLine>::empty());
                assert(side_view(ins@) =~= Seq::<SideLine>::empty());
            }
        } else if !in_hunk {
        } else if l.len() > 0 && l[0] == '\\' {
        } else if l.len() > 0 && l[0] == '-' {
            let t = shown_text(l, 1, tab_width);
            let ghost before = dels@;
            dels.push((old_num as usize, t));
            proof {
                assert(side_view(dels@) == side_view(before).push((old_num as nat, t@)));
            }
            old_num = old_num + 1;
        } else if l.len() > 0 && l[0] == '+' {
            let t = shown_text(l, 1, tab_width);
            let ghost before = ins@;
            ins.push((new_num as usize, t));
            proof {
                assert(side_view(ins@) == side_view(before).push((new_num as nat, t@)));
            }
            new_num = new_num + 1;
        } else {
            flush(&mut dels, &mut ins, &mut out);
            let from: usize = if l.len() > 0 && l[0] == ' ' {
                1
            } else {
                0
            };
            proof {
                assert(l@.skip(0) == l@);
            }
            let t = shown_text(l, from, tab_width);
            let row = DiffLine {
                old_line: Some((old_num as usize, t.clone())),
                new_line: Some((new_num as usize, t)),
                change_type: ChangeType::Equal,
                old_segments: None,
                new_segments: None,
                file_header: None,
                comment_notes: Vec::new(),
                section_index: 0,
            };
            let ghost before = out@;
            out.push(row);
            proof {
                assert(rows_view(out@) == rows_view(before).push(row_view(row)));
                assert(side_view(dels@) =~= Seq::<SideLine>::empty());
                assert(side_view(ins@) =~= Seq::<SideLine>::empty());
            }
            old_num = old_num + 1;
            new_num = new_num + 1;
        }
        i = i + 1;
    }
    proof {
        assert(lv.take(lv.len() as int) == lv);
    }
    flush(&mut dels, &mut ins, &mut out);
    out
}

/// The start of every run of changed rows.
pub open spec fn hunk_starts(types: Seq<ChangeType>) -> Seq<int>
    decreases types.len(),
{
    if types.len() == 0 {
        seq![]
    } else {
        let k = types.len() - 1;
        let rest = hunk_starts(types.drop_last());
        if types[k] != ChangeType::Equal && (k == 0 || types[k - 1] == ChangeType::Equal) {
            rest.push(k)
        } else {
            rest
        }
    }
}

/// The change types of rows.
pub open spec fn change_types(v: Seq<DiffLine>) -> Seq<ChangeType> {
    v.map_values(|d: DiffLine| d.change_type)
}

/// The indices where runs of changed rows start.
pub fn find_hunk_starts(lines: &[DiffLine]) -> (r: Vec<usize>)
    ensures
        r@.map_values(|i: usize| i as int) == hunk_starts(change_types(lines@)),
{
    let ghost ts = change_types(lines@);
    let mut hunks: Vec<usize> = Vec::new();
    let mut in_hunk = false;
    let mut i: usize = 0;
    proof {
        assert(ts.take(0) =~= Seq::<ChangeType>::empty());
        assert(hunks@.map_values(|i: usize| i as int) =~= Seq::<int>::empty());
    }
    while i < lines.len()
        invariant
            i <= lines.len(),
            ts == change_types(lines@),
            hunks@.map_values(|i: usize| i as int) == hunk_starts(ts.take(i as int)),
            in_hunk == (i > 0 && ts[i - 1] != ChangeType::Equal),
        decreases lines.len() - i,
    {
        let is_change = !(lines[i].change_type == ChangeType::Equal);
        proof {
            let t1 = ts.take(i + 1);
            assert(t1.drop_last() == ts.take(i as int));
            assert(t1[i as int] == lines@[i as int].change_type);
            if i > 0 {
                assert(t1[i - 1] == ts[i - 1]);
            }
        }
        if is_change && !in_hunk {
            let ghost before = hunks@;
            hunks.push(i);
            proof {
                assert(hunks@.map_values(|i: usize| i as int) == before.map_values(|i: usize| i as int).push(i as int));
            }
            in_hunk = true;
        } else if !is_change {
            in_hunk = false;
        }
        i = i + 1;
    }
    proof {
        assert(ts.take(ts.len() as int) == ts);
    }
    hunks
}


/// The changes that `similar` finds between the lines of two texts, each line with its
/// newline (`TextDiff::from_lines(old, new).iter_all_changes()`).
pub uninterp spec fn line_changes(old: Seq<char>, new: Seq<char>) -> Seq<(DiffTag, Seq<char>)>;

/// The line-level changes between two texts, by `similar`'s `TextDiff::from_lines`
/// (Myers' algorithm, no deadline); the result depends on the two texts alone.  Kept and
/// deleted lines are pieces of `old`, inserted ones pieces of `new`.
#[verifier::external_body]
fn diff_lines(old: &str, new: &str) -> (r: Vec<TextChange>)
    ensures
        changes_view(r@) == line_changes(old@, new@),
        forall|k: int| 0 <= k < r@.len() ==> (#[trigger] r@[k]).tag != DiffTag::Insert ==> crate::text::contains_seq(old@, r@[k].value@),
        forall|k: int| 0 <= k < r@.len() ==> (#[trigger] r@[k]).tag == DiffTag::Insert ==> crate::text::contains_seq(new@, r@[k].value@),
{
    let diff = similar::TextDiff::from_lines(old, new);
    let mut out = Vec::new();
    for c in diff.iter_all_changes() {
        let tag = match c.tag() {
            similar::ChangeTag::Equal => DiffTag::Equal,
            similar::ChangeTag::Delete => DiffTag::Delete,
            similar::ChangeTag::Insert => DiffTag::Insert,
        };
        out.push(TextChange { tag, value: c.value().to_string() });
    }
    out
}

/// What has been read of the line changes: the rows so far, the next old and new line
/// numbers, and the pending deletions and insertions.
pub type ChangeScan = (Seq<RowView>, nat, nat, Seq<SideLine>, Seq<SideLine>);

/// Reads one line change.  A kept line shows on both sides after what is pending;
/// consecutive deletions, then the insertions right after them, are paired; an
/// insertion with no deletion before it stands alone.
pub open spec fn change_step(st: ChangeScan, c: (DiffTag, Seq<char>), tab_width: nat) -> ChangeScan {
    let (rows, o, n, dels, ins) = st;
    let text = shown(c.1, tab_width);
    match c.0 {
        DiffTag::Equal => (
            rows + pair_rows(dels, ins) + seq![(Some((o, text)), Some((n, text)), ChangeType::Equal, None, None)],
            o + 1,
            n + 1,
            seq![],
            seq![],
        ),
        DiffTag::Delete => if ins.len() > 0 {
            (rows + pair_rows(dels, ins), o + 1, n, seq![(o, text)], seq![])
        } else {
            (rows, o + 1, n, dels.push((o, text)), ins)
        },
        DiffTag::Insert => if dels.len() == 0 {
            (rows + seq![(None, Some((n, text)), ChangeType::Insert, None, None)], o, n + 1, dels, ins)
        } else {
            (rows, o, n + 1, dels, ins.push((n, text)))
        },
    }
}

/// The scan of all changes.
pub open spec fn change_scan(ch: Seq<(DiffTag, Seq<char>)>, tab_width: nat) -> ChangeScan
    decreases ch.len(),
{
    if ch.len() == 0 {
        (seq![], 1, 1, seq![], seq![])
    } else {
        change_step(change_scan(ch.drop_last(), tab_width), ch.last(), tab_width)
    }
}

/// The side-by-side rows of two texts.
pub open spec fn side_by_side_rows(old: Seq<char>, new: Seq<char>, tab_width: nat) -> Seq<RowView> {
    let st = change_scan(line_changes(old, new), tab_width);
    st.0 + pair_rows(st.3, st.4)
}

/// A piece of a tab-free text is tab-free.
proof fn lemma_piece_no_tab(s: Seq<char>, t: Seq<char>)
    requires
        !has_tab(s),
        crate::text::contains_seq(s, t),
    ensures
        !has_tab(t),
{
    let i = choose|i: int| crate::text::occurs_at(s, t, i);
    if has_tab(t) {
        let k = choose|k: int| 0 <= k < t.len() && t[k] == '\t';
        assert(s.subrange(i, i + t.len())[k] == s[i + k]);
    }
}

/// Computes a side-by-side diff of two texts, GitHub style: consecutive deletions are
/// paired with the insertions that follow them on the same rows.
pub fn compute_side_by_side(old: &str, new: &str, tab_width: usize) -> (rows: Vec<DiffLine>)
    requires
        tab_width > 0 || (!has_tab(old@) && !has_tab(new@)),
    ensures
        rows_view(rows@) == side_by_side_rows(old@, new@, tab_width as nat),
        forall|k: int| 0 <= k < rows@.len() ==> is_plain_row(#[trigger] rows@[k]),
{
    let changes = diff_lines(old, new);
    let ghost ch = changes_view(changes@);
    let mut out: Vec<DiffLine> = Vec::new();
    let mut old_num: u128 = 1;
    let mut new_num: u128 = 1;
    let mut dels: Vec<(usize, String)> = Vec::new();
    let mut ins: Vec<(usize, String)> = Vec::new();
    let mut i: usize = 0;
    proof {
        assert(ch.take(0) =~= Seq::<(DiffTag, Seq<char>)>::empty());
        assert(rows_view(out@) =~= Seq::<RowView>::empty());
        assert(side_view(dels@) =~= Seq::<SideLine>::empty());
        assert(side_view(ins@) =~= Seq::<SideLine>::empty());
    }
    while i < changes.len()
        invariant
            i <= changes.len(),
            ch == changes_view(changes@),
            tab_width > 0 || (!has_tab(old@) && !has_tab(new@)),
            forall|k: int| 0 <= k < changes@.len() ==> (#[trigger] changes@[k]).tag != DiffTag::Insert ==> crate::text::contains_seq(old@, changes@[k].value@),
            forall|k: int| 0 <= k < changes@.len() ==> (#[trigger] changes@[k]).tag == DiffTag::Insert ==> crate::text::contains_seq(new@, changes@[k].value@),
            old_num <= i + 1,
            new_num <= i + 1,
            change_scan(ch.take(i as int), tab_width as nat) == (
                rows_view(out@),
                old_num as nat,
                new_num as nat,
                side_view(dels@),
                side_view(ins@),
            ),
            forall|k: int| 0 <= k < out@.len() ==> is_plain_row(#[trigger] out@[k]),
        decreases changes.len() - i,
    {
        let c = &changes[i];
        proof {
            assert(ch.take(i + 1).drop_last() == ch.take(i as int));
            assert(ch.take(i + 1).last() == (c.tag, c.value@));
            if tab_width == 0 {
                if c.tag != DiffTag::Insert {
                    lemma_piece_no_tab(old@, c.value@);
                } else {
                    lemma_piece_no_tab(new@, c.value@);
                }
            }
        }
        let cv = chars_of(c.value.as_str());
        proof {
            assert(cv@.skip(0) == cv@);
        }
        let text = shown_text(&cv, 0, tab_width);
        match c.tag {
            DiffTag::Equal => {
                flush(&mut dels, &mut ins, &mut out);
                let row = DiffLine {
                    old_line: Some((old_num as usize, text.clone())),
                    new_line: Some((new_num as usize, text)),
                    change_type: ChangeType::Equal,
                    old_segments: None,
                    new_segments: None,
                    file_header: None,
                    comment_notes: Vec::new(),
                    section_index: 0,
                };
                let ghost before = out@;
                out.push(row);
                proof {
                    assert(rows_view(out@) == rows_view(before).push(row_view(row)));
                    assert(side_view(dels@) =~= Seq::<SideLine>::empty());
                    assert(side_view(ins@) =~= Seq::<SideLine>::empty());
                }
                old_num = old_num + 1;
                new_num = new_num + 1;
            },
            DiffTag::Delete => {
                if ins.len() > 0 {
                    flush(&mut dels, &mut ins, &mut out);
                    proof {
                        assert(side_view(ins@) =~= Seq::<SideLine>::empty());
                    }
                }
                let ghost before = dels@;
                dels.push((old_num as usize, text));
                proof {
                    assert(side_view(dels@) == side_view(before).push((old_num as nat, text@)));
                    assert(side_view(before).len() == 0 ==> side_view(before).push((old_num as nat, text@)) =~= seq![(old_num as nat, text@)]);
                }
                old_num = old_num + 1;
            },
            DiffTag::Insert => {
                if dels.len() == 0 {
                    let row = DiffLine {
                        old_line: None,
                        new_line: Some((new_num as usize, text)),
                        change_type: ChangeType::Insert,
                        old_segments: None,
                        new_segments: None,
                        file_header: None,
                        comment_notes: Vec::new(),
                        section_index: 0,
                    };
                    let ghost before = out@;
                    out.push(row);
                    proof {
                        assert(rows_view(out@) == rows_view(before).push(row_view(row)));
                    }
                } else {
                    let ghost before = ins@;
                    ins.push((new_num as usize, text));
                    proof {
                        assert(side_view(ins@) == side_view(before).push((new_num as nat, text@)));
                    }
                }
                new_num = new_num + 1;
            },
        }
        i = i + 1;
    }
    proof {
        assert(ch.take(ch.len() as int) == ch);
    }
    flush(&mut dels, &mut ins, &mut out);
    out
}

} // verus!

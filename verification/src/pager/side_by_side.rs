use vstd::prelude::*;

use crate::pager::diff_algo::{
    change_types, compute_side_by_side, find_hunk_starts, hunk_starts, no_tabs, rows_view, side_by_side_rows,
};
use crate::pager::{has_tab, ChangeType, DiffLine};
use crate::text::{
    byte_len, cat, char_utf8_len, chars_of, comps, lowercase_of, matches_at, occurrences, occurrences_before,
    occurs_at, prefix_bytes, to_lowercase, utf8_len, copy_chars, decimal, decimal_string, has_prefix, index_of, join_chars, join_with, lemma_index_of,
    lemma_split_pat_nonempty, lines_of, split_at_pat, split_char, split_lines, split_pat, starts_with, string_of,
    strip_cr,
};

verus! {

/// Which panel of the side-by-side diff.
#[derive(Debug, Clone, Copy, PartialEq, Eq, Structural)]
pub enum DiffPanel {
    /// The left panel: the code before the change.
    Old,
    /// The right panel: the new code.
    New,
}

/// A mouse text selection in the diff view.
#[derive(Debug, Clone)]
pub struct TextSelection {
    pub panel: DiffPanel,
    pub start_col: u16,
    pub start_row: u16,
    pub end_col: u16,
    pub end_row: u16,
    /// Whether the user is still dragging.
    pub dragging: bool,
    /// The selected text, once extracted.
    pub text: String,
}

impl TextSelection {
    /// The selection as (top row, top column, bottom row, bottom column): its two ends in
    /// reading order.
    pub fn normalized(&self) -> (r: (u16, u16, u16, u16))
        ensures
            (self.start_row < self.end_row || (self.start_row == self.end_row && self.start_col <= self.end_col))
                ==> r == (self.start_row, self.start_col, self.end_row, self.end_col),
            !(self.start_row < self.end_row || (self.start_row == self.end_row && self.start_col <= self.end_col))
                ==> r == (self.end_row, self.end_col, self.start_row, self.start_col),
            r.0 < r.2 || (r.0 == r.2 && r.1 <= r.3),
    {
        if self.start_row < self.end_row || (self.start_row == self.end_row && self.start_col <= self.end_col) {
            (self.start_row, self.start_col, self.end_row, self.end_col)
        } else {
            (self.end_row, self.end_col, self.start_row, self.start_col)
        }
    }
}

impl TextSelection {
    /// Drags the selection's end to column `col`, row `row`, while dragging: the column is
    /// kept within the panel's content, its 5-column gutter included, and the row within
    /// the panel's inner rows.
    pub fn drag_to(&mut self, layout: &DiffPanelLayout, col: u16, row: u16)
        ensures
            final(self).panel == old(self).panel,
            final(self).start_col == old(self).start_col,
            final(self).start_row == old(self).start_row,
            final(self).dragging == old(self).dragging,
            final(self).text@ == old(self).text@,
            !old(self).dragging ==> final(self).end_col == old(self).end_col && final(self).end_row == old(self).end_row,
            old(self).dragging ==> {
                let (cmin, cmax) = if old(self).panel == DiffPanel::Old {
                    (layout.old_content_x as int, layout.old_content_end_x as int)
                } else {
                    (layout.new_content_x as int, layout.new_content_end_x as int)
                };
                let low = sat_sub(cmin, 5);
                let high = sat_sub(cmax, 1);
                let row_high = sat_sub(layout.inner_end_y as int, 1);
                &&& final(self).end_col == if col < low {
                    if low < high {
                        low
                    } else {
                        high
                    }
                } else if col < high {
                    col as int
                } else {
                    high
                }
                &&& final(self).end_row == if row < layout.inner_y {
                    if (layout.inner_y as int) < row_high {
                        layout.inner_y as int
                    } else {
                        row_high
                    }
                } else if (row as int) < row_high {
                    row as int
                } else {
                    row_high
                }
            },
    {
        if self.dragging {
            let (cmin, cmax) = layout.content_range(self.panel);
            let low = cmin.saturating_sub(5);
            let high = cmax.saturating_sub(1);
            let c = if col < low {
                low
            } else {
                col
            };
            self.end_col = if c < high {
                c
            } else {
                high
            };
            let row_high = layout.inner_end_y.saturating_sub(1);
            let r = if row < layout.inner_y {
                layout.inner_y
            } else {
                row
            };
            self.end_row = if r < row_high {
                r
            } else {
                row_high
            };
        }
    }
}

/// Which side or sides of the diff are shown.
#[derive(Debug, Clone, Copy, PartialEq, Eq, Structural)]
pub enum DiffSideView {
    Both,
    OldOnly,
    NewOnly,
}

/// A search match in the diff.
#[derive(Debug, Clone)]
pub struct DiffSearchMatch {
    /// Index of the diff row.
    pub line_idx: usize,
    pub panel: DiffPanel,
    /// Byte offset in the row's text.
    pub col: usize,
}

/// A rectangle of the terminal: left column, top row, width and height.
#[derive(Debug, Clone, Copy, PartialEq, Eq, Structural)]
pub struct PanelRect {
    pub x: u16,
    pub y: u16,
    pub width: u16,
    pub height: u16,
}

/// The content columns of the diff panels, as absolute terminal columns.
#[derive(Debug, Clone, Copy)]
pub struct DiffPanelLayout {
    /// Only the right panel is shown, for a new file.
    pub is_new_file: bool,
    /// Left panel content start (after its gutter).
    pub old_content_x: u16,
    /// Left panel content end (exclusive, up to the divider).
    pub old_content_end_x: u16,
    /// Right panel content start (after its gutter).
    pub new_content_x: u16,
    /// Right panel content end (exclusive).
    pub new_content_end_x: u16,
    /// First inner row (after the top border).
    pub inner_y: u16,
    /// End of the inner rows (exclusive, before the bottom border).
    pub inner_end_y: u16,
}

/// `a - b`, or 0.
pub open spec fn sat_sub(a: int, b: int) -> int {
    if a > b {
        a - b
    } else {
        0
    }
}

/// Whether the diff shows a single panel: one side was chosen, or the file is new
/// (empty old content, at most one section).
pub open spec fn single_panel(old_content_empty: bool, section_count: nat, side_view: DiffSideView) -> bool {
    side_view != DiffSideView::Both || (old_content_empty && section_count <= 1)
}

/// The layout fits the terminal's coordinates.
pub open spec fn layout_fits(r: PanelRect, single: bool) -> bool {
    let inner_x = r.x + 1;
    let inner_w = sat_sub(r.width as int, 2);
    &&& r.y + 1 + sat_sub(r.height as int, 2) <= u16::MAX
    &&& if single {
        inner_x + 5 <= u16::MAX && inner_x + inner_w <= u16::MAX
    } else {
        inner_x + 11 <= u16::MAX && inner_x + inner_w <= u16::MAX
    }
}

/// The layout of a panel rectangle: inside a one-cell border, each panel has a gutter of
/// five columns; a single panel takes the whole width, two panels split the content
/// width evenly beside a one-column divider, the right one taking the odd column.
pub open spec fn layout_of(
    r: PanelRect,
    old_content_empty: bool,
    section_count: nat,
    side_view: DiffSideView,
) -> (bool, int, int, int, int, int, int) {
    let inner_x = r.x + 1;
    let inner_y = r.y + 1;
    let inner_w = sat_sub(r.width as int, 2);
    let inner_end_y = inner_y + sat_sub(r.height as int, 2);
    let is_new = old_content_empty && section_count <= 1;
    if single_panel(old_content_empty, section_count, side_view) {
        let cx = inner_x + 5;
        let cend = inner_x + inner_w;
        if side_view == DiffSideView::OldOnly {
            (false, cx, cend, 0, 0, inner_y, inner_end_y)
        } else {
            (is_new && side_view == DiffSideView::Both, 0, 0, cx, cend, inner_y, inner_end_y)
        }
    } else {
        let content_w = sat_sub(inner_w, 11);
        let panel_w = content_w / 2;
        let ox = inner_x + 5;
        let oend = ox + panel_w;
        (false, ox, oend, oend + 6, inner_x + inner_w, inner_y, inner_end_y)
    }
}

/// The abstract layout.
pub open spec fn layout_view(l: DiffPanelLayout) -> (bool, int, int, int, int, int, int) {
    (
        l.is_new_file,
        l.old_content_x as int,
        l.old_content_end_x as int,
        l.new_content_x as int,
        l.new_content_end_x as int,
        l.inner_y as int,
        l.inner_end_y as int,
    )
}

/// The panel a column falls in, gutters included; for a new file only the right panel.
pub open spec fn panel_at(l: DiffPanelLayout, x: u16) -> Option<DiffPanel> {
    if l.is_new_file {
        if sat_sub(l.new_content_x as int, 5) <= x < l.new_content_end_x {
            Some(DiffPanel::New)
        } else {
            None
        }
    } else if sat_sub(l.old_content_x as int, 5) <= x < l.old_content_end_x {
        Some(DiffPanel::Old)
    } else if sat_sub(l.new_content_x as int, 5) <= x < l.new_content_end_x {
        Some(DiffPanel::New)
    } else {
        None
    }
}

impl DiffPanelLayout {
    /// Computes the panel layout of the diff view `state` in `panel_rect` (see `layout_of`).
    pub fn compute(panel_rect: PanelRect, state: &DiffViewState) -> (l: DiffPanelLayout)
        requires
            layout_fits(panel_rect, single_panel(state.old_content@.len() == 0, state.section_count as nat, state.side_view)),
        ensures
            layout_view(l) == layout_of(panel_rect, state.old_content@.len() == 0, state.section_count as nat, state.side_view),
    {
        let empty = state.old_content.as_str().is_empty();
        DiffPanelLayout::layout_for(panel_rect, empty, state.section_count, state.side_view)
    }

    /// The layout for a panel rectangle, given whether the old content is empty, the
    /// number of file sections, and the chosen sides.
    fn layout_for(panel_rect: PanelRect, old_content_empty: bool, section_count: usize, side_view: DiffSideView) -> (l: DiffPanelLayout)
        requires
            layout_fits(panel_rect, single_panel(old_content_empty, section_count as nat, side_view)),
        ensures
            layout_view(l) == layout_of(panel_rect, old_content_empty, section_count as nat, side_view),
    {
        let inner_x = panel_rect.x + 1;
        let inner_y = panel_rect.y + 1;
        let inner_w = panel_rect.width.saturating_sub(2);
        let inner_end_y = inner_y + panel_rect.height.saturating_sub(2);
        let gutter: u16 = 5;
        let divider: u16 = 1;
        let is_new_file = old_content_empty && section_count <= 1;
        let single_side: Option<DiffPanel> = match side_view {
            DiffSideView::OldOnly => Some(DiffPanel::Old),
            DiffSideView::NewOnly => Some(DiffPanel::New),
            DiffSideView::Both => None,
        };
        if single_side.is_some() || is_new_file {
            let content_x = inner_x + gutter;
            let content_end_x = inner_x + inner_w;
            let panel = match single_side {
                Some(p) => p,
                None => DiffPanel::New,
            };
            let (old_x, old_end, new_x, new_end) = match panel {
                DiffPanel::Old => (content_x, content_end_x, 0u16, 0u16),
                DiffPanel::New => (0u16, 0u16, content_x, content_end_x),
            };
            DiffPanelLayout {
                is_new_file: is_new_file && single_side.is_none(),
                old_content_x: old_x,
                old_content_end_x: old_end,
                new_content_x: new_x,
                new_content_end_x: new_end,
                inner_y,
                inner_end_y,
            }
        } else {
            let total_chrome = gutter * 2 + divider;
            let content_w = if inner_w > total_chrome {
                inner_w - total_chrome
            } else {
                0
            };
            let panel_w = content_w / 2;
            let old_content_x = inner_x + gutter;
            let old_content_end_x = old_content_x + panel_w;
            let new_content_x = old_content_end_x + divider + gutter;
            let new_content_end_x = inner_x + inner_w;
            DiffPanelLayout {
                is_new_file: false,
                old_content_x,
                old_content_end_x,
                new_content_x,
                new_content_end_x,
                inner_y,
                inner_end_y,
            }
        }
    }

    /// The panel column `x` falls in, if any; each panel's gutter counts as part of it.
    pub fn panel_at_x(&self, x: u16) -> (p: Option<DiffPanel>)
        ensures
            p == panel_at(*self, x),
    {
        if self.is_new_file {
            if x >= self.new_content_x && x < self.new_content_end_x {
                return Some(DiffPanel::New);
            }
            if x >= self.new_content_x.saturating_sub(5) && x < self.new_content_end_x {
                return Some(DiffPanel::New);
            }
            return None;
        }
        if x >= self.old_content_x.saturating_sub(5) && x < self.old_content_end_x {
            Some(DiffPanel::Old)
        } else if x >= self.new_content_x.saturating_sub(5) && x < self.new_content_end_x {
            Some(DiffPanel::New)
        } else {
            None
        }
    }

    /// The content columns (start, end exclusive) of a panel.
    pub fn content_range(&self, panel: DiffPanel) -> (r: (u16, u16))
        ensures
            panel == DiffPanel::Old ==> r == (self.old_content_x, self.old_content_end_x),
            panel == DiffPanel::New ==> r == (self.new_content_x, self.new_content_end_x),
    {
        match panel {
            DiffPanel::Old => (self.old_content_x, self.old_content_end_x),
            DiffPanel::New => (self.new_content_x, self.new_content_end_x),
        }
    }
}


// ---------------------------------------------------------------------------
// Reading `git diff` output
// ---------------------------------------------------------------------------

/// The file name in a `diff --git a/… b/…` header line: what follows its last ` b/`.
pub open spec fn header_filename(line: Seq<char>) -> Seq<char> {
    split_pat(line, " b/"@).last()
}

/// The file name of a `diff --git` header line (the new name, after ` b/`).
pub fn extract_filename_from_diff_header(line: &[char]) -> (r: Vec<char>)
    ensures
        r@ == header_filename(line@),
{
    let pat = chars_of(" b/");
    proof {
        reveal_strlit(" b/");
        lemma_split_pat_nonempty(line@, pat@);
    }
    let mut pieces = split_at_pat(line, &pat);
    let ghost before = comps(pieces@);
    proof {
        assert(before == pieces@.map_values(|v: Vec<char>| v@));
    }
    let last = pieces.pop();
    match last {
        Some(l) => {
            proof {
                assert(l@ == before[before.len() - 1]);
            }
            l
        },
        None => Vec::new(),
    }
}

/// The state of reading a multi-file diff line by line: the finished sections (file
/// name and lines), the current file name (empty before the first header) and the lines
/// gathered since the last header.
pub open spec fn sections_step(
    st: (Seq<(Seq<char>, Seq<Seq<char>>)>, Seq<char>, Seq<Seq<char>>),
    line: Seq<char>,
) -> (Seq<(Seq<char>, Seq<Seq<char>>)>, Seq<char>, Seq<Seq<char>>) {
    if has_prefix(line, "diff --git "@) {
        if st.1.len() > 0 {
            (st.0.push((st.1, st.2)), header_filename(line), seq![])
        } else {
            (st.0, header_filename(line), st.2)
        }
    } else {
        (st.0, st.1, st.2.push(line))
    }
}

/// The state after reading `lines`.
pub open spec fn sections_scan(lines: Seq<Seq<char>>) -> (Seq<(Seq<char>, Seq<Seq<char>>)>, Seq<char>, Seq<Seq<char>>)
    decreases lines.len(),
{
    if lines.len() == 0 {
        (seq![], seq![], seq![])
    } else {
        sections_step(sections_scan(lines.drop_last()), lines.last())
    }
}

/// The per-file sections of a diff: for each `diff --git` header with a non-empty file
/// name, that name and the lines after it up to the next such header, joined with
/// newlines.  Lines before the first named header stay with the first section.
pub open spec fn file_sections(diff: Seq<char>) -> Seq<(Seq<char>, Seq<char>)> {
    let st = sections_scan(lines_of(diff));
    let all = if st.1.len() > 0 {
        st.0.push((st.1, st.2))
    } else {
        st.0
    };
    all.map_values(|p: (Seq<char>, Seq<Seq<char>>)| (p.0, join_with(p.1, "\n"@)))
}

/// The views of a list of sections.
pub open spec fn sections_view(v: Seq<(Vec<char>, Vec<Vec<char>>)>) -> Seq<(Seq<char>, Seq<Seq<char>>)> {
    v.map_values(|p: (Vec<char>, Vec<Vec<char>>)| (p.0@, comps(p.1@)))
}

/// The views of a list of string pairs.
pub open spec fn pairs_view(v: Seq<(String, String)>) -> Seq<(Seq<char>, Seq<char>)> {
    v.map_values(|p: (String, String)| (p.0@, p.1@))
}

/// Splits a diff of several files into (file name, that file's diff) sections.
pub fn parse_multi_file_diff(diff: &str) -> (r: Vec<(String, String)>)
    ensures
        pairs_view(r@) == file_sections(diff@),
{
    let text = chars_of(diff);
    let lines = split_lines(&text);
    let ghost lv = comps(lines@);
    proof {
        assert(lv == lines@.map_values(|v: Vec<char>| v@));
    }
    let header = chars_of("diff --git ");
    let mut secs: Vec<(Vec<char>, Vec<Vec<char>>)> = Vec::new();
    let mut name: Vec<char> = Vec::new();
    let mut cur: Vec<Vec<char>> = Vec::new();
    let mut i: usize = 0;
    proof {
        assert(lv.take(0).len() == 0);
        assert(sections_view(secs@) =~= seq![]);
        assert(comps(cur@) =~= seq![]);
    }
    while i < lines.len()
        invariant
            i <= lines.len(),
            lv == comps(lines@),
            header@ == "diff --git "@,
            sections_scan(lv.take(i as int)) == (sections_view(secs@), name@, comps(cur@)),
        decreases lines.len() - i,
    {
        let line = &lines[i];
        proof {
            let t = lv.take(i + 1);
            assert(t.drop_last() == lv.take(i as int));
            assert(t.last() == line@);
        }
        if starts_with(line, &header) {
            let fname = extract_filename_from_diff_header(line);
            if name.len() > 0 {
                proof {
                    assert(sections_view(secs@.push((name, cur))) =~= sections_view(secs@).push((name@, comps(cur@))));
                }
                secs.push((name, cur));
                cur = Vec::new();
                proof {
                    assert(comps(cur@) =~= seq![]);
                }
            }
            name = fname;
        } else {
            let l = copy_chars(line);
            proof {
                assert(comps(cur@.push(l)) =~= comps(cur@).push(l@));
            }
            cur.push(l);
        }
        i = i + 1;
    }
    proof {
        assert(lv.take(lv.len() as int) == lv);
    }
    if name.len() > 0 {
        proof {
            assert(sections_view(secs@.push((name, cur))) =~= sections_view(secs@).push((name@, comps(cur@))));
        }
        secs.push((name, cur));
    }
    let ghost sv = sections_view(secs@);
    let newline = chars_of("\n");
    let mut out: Vec<(String, String)> = Vec::new();
    let mut k: usize = 0;
    while k < secs.len()
        invariant
            k <= secs.len(),
            sv == sections_view(secs@),
            newline@ == "\n"@,
            pairs_view(out@) == sv.take(k as int).map_values(
                |p: (Seq<char>, Seq<Seq<char>>)| (p.0, join_with(p.1, "\n"@)),
            ),
        decreases secs.len() - k,
    {
        let n = string_of(&secs[k].0);
        let body = join_chars(&secs[k].1, &newline);
        let b = string_of(&body);
        proof {
            assert(sv[k as int] == (secs@[k as int].0@, comps(secs@[k as int].1@)));
            assert(pairs_view(out@.push((n, b))) =~= pairs_view(out@).push((n@, b@)));
            assert(sv.take(k + 1).map_values(|p: (Seq<char>, Seq<Seq<char>>)| (p.0, join_with(p.1, "\n"@)))
                =~= sv.take(k as int).map_values(|p: (Seq<char>, Seq<Seq<char>>)| (p.0, join_with(p.1, "\n"@))).push(
                (sv[k as int].0, join_with(sv[k as int].1, "\n"@)),
            ));
        }
        out.push((n, b));
        k = k + 1;
    }
    proof {
        assert(sv.take(sv.len() as int) == sv);
    }
    out
}


/// The state of reading the hunks of a one-file diff line by line: whether a hunk has
/// started, and the old and new lines so far.
pub open spec fn content_step(st: (bool, Seq<Seq<char>>, Seq<Seq<char>>), line: Seq<char>) -> (bool, Seq<Seq<char>>, Seq<Seq<char>>) {
    if has_prefix(line, "@@"@) {
        (true, st.1, st.2)
    } else if !st.0 {
        st
    } else if has_prefix(line, "-"@) {
        (true, st.1.push(line.skip(1)), st.2)
    } else if has_prefix(line, "+"@) {
        (true, st.1, st.2.push(line.skip(1)))
    } else if has_prefix(line, " "@) {
        (true, st.1.push(line.skip(1)), st.2.push(line.skip(1)))
    } else {
        (true, st.1.push(line), st.2.push(line))
    }
}

/// The state after reading `lines`.
pub open spec fn content_scan(lines: Seq<Seq<char>>) -> (bool, Seq<Seq<char>>, Seq<Seq<char>>)
    decreases lines.len(),
{
    if lines.len() == 0 {
        (false, seq![], seq![])
    } else {
        content_step(content_scan(lines.drop_last()), lines.last())
    }
}

/// The old and new text of a one-file diff, from its hunks: a `-` line is old only, a
/// `+` line new only, a context line (leading space) both, each without its mark; any
/// other line inside the hunks (such as `\ No newline at end of file`) goes to both as it
/// is.  Lines before the first `@@` are skipped.
pub open spec fn diff_contents(diff: Seq<char>) -> (Seq<char>, Seq<char>) {
    let st = content_scan(lines_of(diff));
    (join_with(st.1, "\n"@), join_with(st.2, "\n"@))
}

proof fn lemma_take_no_tab(s: Seq<char>, i: int)
    requires
        !has_tab(s),
        0 <= i <= s.len(),
    ensures
        !has_tab(s.take(i)),
        !has_tab(s.skip(i)),
{
    assert forall|k: int| 0 <= k < i implies s.take(i)[k] != '\t' by {
        assert(s.take(i)[k] == s[k]);
    }
    assert forall|k: int| 0 <= k < s.len() - i implies s.skip(i)[k] != '\t' by {
        assert(s.skip(i)[k] == s[i + k]);
    }
}

proof fn lemma_split_no_tab(s: Seq<char>, c: char)
    requires
        !has_tab(s),
    ensures
        no_tabs(split_char(s, c)),
    decreases s.len(),
{
    let i = index_of(s, c);
    lemma_index_of(s, c);
    if i >= 0 {
        lemma_take_no_tab(s, i);
        lemma_take_no_tab(s, i + 1);
        lemma_split_no_tab(s.skip(i + 1), c);
        let p = split_char(s, c);
        assert(p == seq![s.take(i)] + split_char(s.skip(i + 1), c));
        assert forall|k: int| 0 <= k < p.len() implies !has_tab(#[trigger] p[k]) by {
            if k > 0 {
                assert(p[k] == split_char(s.skip(i + 1), c)[k - 1]);
            }
        }
    }
}

proof fn lemma_lines_no_tab(s: Seq<char>)
    requires
        !has_tab(s),
    ensures
        no_tabs(lines_of(s)),
{
    if s.len() > 0 {
        lemma_split_no_tab(s, '\n');
        let p = split_char(s, '\n');
        crate::text::lemma_split_char_nonempty(s, '\n');
        let ls = lines_of(s);
        assert forall|k: int| 0 <= k < ls.len() implies !has_tab(#[trigger] ls[k]) by {
            if k < p.len() - 1 {
                assert(ls[k] == strip_cr(p[k]));
                assert(!has_tab(p[k]));
                let l = p[k];
                if l.len() > 0 && l.last() == '\r' {
                    lemma_take_no_tab(l, l.len() - 1);
                }
            } else {
                assert(ls[k] == p.last());
                assert(!has_tab(p[p.len() - 1]));
            }
        }
    }
}

proof fn lemma_join_no_tab(ls: Seq<Seq<char>>, sep: Seq<char>)
    requires
        no_tabs(ls),
        !has_tab(sep),
    ensures
        !has_tab(join_with(ls, sep)),
    decreases ls.len(),
{
    if ls.len() == 1 {
        assert(!has_tab(ls[0]));
    } else if ls.len() > 1 {
        let init = ls.drop_last();
        assert forall|k: int| 0 <= k < init.len() implies !has_tab(#[trigger] init[k]) by {
            assert(init[k] == ls[k]);
        }
        lemma_join_no_tab(init, sep);
        let a = join_with(init, sep);
        let l = ls.last();
        assert(!has_tab(ls[ls.len() - 1]));
        let j = a + sep + l;
        assert forall|k: int| 0 <= k < j.len() implies j[k] != '\t' by {
            if k < a.len() {
                assert(j[k] == a[k]);
            } else if k < a.len() + sep.len() {
                assert(j[k] == sep[k - a.len()]);
            } else {
                assert(j[k] == l[k - a.len() - sep.len()]);
            }
        }
    }
}

proof fn lemma_content_scan_no_tab(lines: Seq<Seq<char>>)
    requires
        no_tabs(lines),
    ensures
        no_tabs(content_scan(lines).1),
        no_tabs(content_scan(lines).2),
    decreases lines.len(),
{
    if lines.len() > 0 {
        let init = lines.drop_last();
        assert forall|k: int| 0 <= k < init.len() implies !has_tab(#[trigger] init[k]) by {
            assert(init[k] == lines[k]);
        }
        lemma_content_scan_no_tab(init);
        reveal_strlit("-");
        reveal_strlit("+");
        reveal_strlit(" ");
        reveal_strlit("@@");
        let l = lines.last();
        assert(!has_tab(lines[lines.len() - 1]));
        if l.len() >= 1 {
            lemma_take_no_tab(l, 1);
        }
        let st = content_scan(init);
        let r = content_scan(lines);
        assert forall|k: int| 0 <= k < r.1.len() implies !has_tab(#[trigger] r.1[k]) by {
            if k < st.1.len() {
                assert(r.1[k] == st.1[k]);
            }
        }
        assert forall|k: int| 0 <= k < r.2.len() implies !has_tab(#[trigger] r.2[k]) by {
            if k < st.2.len() {
                assert(r.2[k] == st.2[k]);
            }
        }
    }
}

/// The old and new text of a one-file diff (see `diff_contents`).
pub fn parse_unified_diff(diff: &str) -> (r: (String, String))
    ensures
        (r.0@, r.1@) == diff_contents(diff@),
        !has_tab(diff@) ==> !has_tab(r.0@) && !has_tab(r.1@),
{
    let text = chars_of(diff);
    let lines = split_lines(&text);
    let ghost lv = comps(lines@);
    proof {
        assert(lv == lines@.map_values(|v: Vec<char>| v@));
    }
    proof {
        reveal_strlit("-");
        reveal_strlit("+");
        reveal_strlit(" ");
    }
    let at = chars_of("@@");
    let minus = chars_of("-");
    let plus = chars_of("+");
    let space = chars_of(" ");
    let mut in_hunk = false;
    let mut olds: Vec<Vec<char>> = Vec::new();
    let mut news: Vec<Vec<char>> = Vec::new();
    let mut i: usize = 0;
    proof {
        assert(lv.take(0).len() == 0);
        assert(comps(olds@) =~= seq![]);
        assert(comps(news@) =~= seq![]);
    }
    while i < lines.len()
        invariant
            i <= lines.len(),
            lv == comps(lines@),
            at@ == "@@"@,
            minus@ == "-"@,
            plus@ == "+"@,
            space@ == " "@,
            minus@.len() == 1,
            plus@.len() == 1,
            space@.len() == 1,
            content_scan(lv.take(i as int)) == (in_hunk, comps(olds@), comps(news@)),
        decreases lines.len() - i,
    {
        let line = &lines[i];
        proof {
            let t = lv.take(i + 1);
            assert(t.drop_last() == lv.take(i as int));
            assert(t.last() == line@);
        }
        if starts_with(line, &at) {
            in_hunk = true;
        } else if in_hunk {
            if starts_with(line, &minus) {
                let l = crate::text::slice_vec(line, 1, line.len());
                proof {
                    assert(l@ == line@.skip(1));
                    assert(comps(olds@.push(l)) =~= comps(olds@).push(l@));
                }
                olds.push(l);
            } else if starts_with(line, &plus) {
                let l = crate::text::slice_vec(line, 1, line.len());
                proof {
                    assert(l@ == line@.skip(1));
                    assert(comps(news@.push(l)) =~= comps(news@).push(l@));
                }
                news.push(l);
            } else if starts_with(line, &space) {
                let l = crate::text::slice_vec(line, 1, line.len());
                let l2 = copy_chars(&l);
                proof {
                    assert(l@ == line@.skip(1));
                    assert(comps(olds@.push(l)) =~= comps(olds@).push(l@));
                    assert(comps(news@.push(l2)) =~= comps(news@).push(l2@));
                }
                olds.push(l);
                news.push(l2);
            } else {
                let l = copy_chars(line);
                let l2 = copy_chars(line);
                proof {
                    assert(comps(olds@.push(l)) =~= comps(olds@).push(l@));
                    assert(comps(news@.push(l2)) =~= comps(news@).push(l2@));
                }
                olds.push(l);
                news.push(l2);
            }
        }
        i = i + 1;
    }
    proof {
        assert(lv.take(lv.len() as int) == lv);
    }
    let newline = chars_of("\n");
    let o = join_chars(&olds, &newline);
    let n = join_chars(&news, &newline);
    proof {
        if !has_tab(diff@) {
            lemma_lines_no_tab(diff@);
            lemma_content_scan_no_tab(lv);
            reveal_strlit("\n");
            lemma_join_no_tab(comps(olds@), "\n"@);
            lemma_join_no_tab(comps(news@), "\n"@);
        }
    }
    (string_of(&o), string_of(&n))
}


// ---------------------------------------------------------------------------
// The diff view
// ---------------------------------------------------------------------------

/// The state of the diff view panel.  The syntax highlighters of its file sections and
/// the search input widget belong to the terminal front end; `section_count` counts the
/// sections.
pub struct DiffViewState {
    pub scroll_offset: usize,
    pub horizontal_scroll: usize,
    pub lines: Vec<DiffLine>,
    pub hunk_starts: Vec<usize>,
    pub filename: String,
    pub old_content: String,
    pub new_content: String,
    pub tab_width: usize,
    /// The number of file sections shown.
    pub section_count: usize,
    /// The active mouse selection, if any.
    pub selection: Option<TextSelection>,
    /// Which side or sides are shown.
    pub side_view: DiffSideView,
    /// Whether the search input is open.
    pub search_active: bool,
    pub search_query: String,
    pub search_matches: Vec<DiffSearchMatch>,
    /// The current match, for next/previous navigation.
    pub search_match_idx: usize,
}

/// The last row a scroll can reach: the last row of the diff, or 0 when it is empty.
pub open spec fn max_scroll(len: nat) -> int {
    sat_sub(len as int, 1)
}

/// The first hunk start after row `off`, in list order.
pub open spec fn next_hunk_start(hs: Seq<usize>, off: usize) -> Option<usize>
    decreases hs.len(),
{
    if hs.len() == 0 {
        None
    } else if hs[0] > off {
        Some(hs[0])
    } else {
        next_hunk_start(hs.drop_first(), off)
    }
}

/// The last hunk start before row `off`, in list order.
pub open spec fn prev_hunk_start(hs: Seq<usize>, off: usize) -> Option<usize>
    decreases hs.len(),
{
    if hs.len() == 0 {
        None
    } else if hs.last() < off {
        Some(hs.last())
    } else {
        prev_hunk_start(hs.drop_last(), off)
    }
}

proof fn lemma_next_hunk_start_in(hs: Seq<usize>, off: usize)
    ensures
        next_hunk_start(hs, off) matches Some(h) ==> hs.contains(h) && h > off,
    decreases hs.len(),
{
    if hs.len() > 0 && hs[0] <= off {
        lemma_next_hunk_start_in(hs.drop_first(), off);
        if next_hunk_start(hs, off) is Some {
            let h = next_hunk_start(hs, off)->0;
            let k = choose|k: int| 0 <= k < hs.drop_first().len() && hs.drop_first()[k] == h;
            assert(hs[k + 1] == h);
        }
    } else if hs.len() > 0 {
        assert(hs[0] == hs[0]);
    }
}

proof fn lemma_prev_hunk_start_in(hs: Seq<usize>, off: usize)
    ensures
        prev_hunk_start(hs, off) matches Some(h) ==> hs.contains(h) && h < off,
    decreases hs.len(),
{
    if hs.len() > 0 && hs.last() >= off {
        lemma_prev_hunk_start_in(hs.drop_last(), off);
        if prev_hunk_start(hs, off) is Some {
            let h = prev_hunk_start(hs, off)->0;
            let k = choose|k: int| 0 <= k < hs.drop_last().len() && hs.drop_last()[k] == h;
            assert(hs[k] == h);
        }
    } else if hs.len() > 0 {
        assert(hs[hs.len() - 1] == hs.last());
    }
}

impl DiffViewState {
    /// The view is consistent: the scroll position is on a row (or 0), every hunk start
    /// and search match is on a row, and the current match is a match (or 0 when there
    /// is none).
    pub open spec fn well_formed(&self) -> bool {
        &&& self.scroll_offset <= max_scroll(self.lines@.len())
        &&& forall|k: int| 0 <= k < self.hunk_starts@.len() ==> #[trigger] self.hunk_starts@[k] < self.lines@.len()
        &&& forall|k: int| 0 <= k < self.search_matches@.len() ==> (#[trigger] self.search_matches@[k]).line_idx < self.lines@.len()
        &&& (self.search_match_idx < self.search_matches@.len() || (self.search_matches@.len() == 0 && self.search_match_idx == 0))
    }

    /// Everything but the scroll position is the same in `a` and `b`.
    pub open spec fn same_but_scroll(a: &DiffViewState, b: &DiffViewState) -> bool {
        &&& a.horizontal_scroll == b.horizontal_scroll
        &&& a.lines == b.lines
        &&& a.hunk_starts == b.hunk_starts
        &&& a.filename == b.filename
        &&& a.old_content == b.old_content
        &&& a.new_content == b.new_content
        &&& a.tab_width == b.tab_width
        &&& a.section_count == b.section_count
        &&& a.selection == b.selection
        &&& a.side_view == b.side_view
        &&& a.search_active == b.search_active
        &&& a.search_query == b.search_query
        &&& a.search_matches == b.search_matches
        &&& a.search_match_idx == b.search_match_idx
    }

    /// An empty view: no diff, nothing scrolled, tabs four columns wide, both sides
    /// shown, no search.
    pub fn new() -> (s: DiffViewState)
        ensures
            s.scroll_offset == 0,
            s.horizontal_scroll == 0,
            s.lines@.len() == 0,
            s.hunk_starts@.len() == 0,
            s.filename@.len() == 0,
            s.old_content@.len() == 0,
            s.new_content@.len() == 0,
            s.tab_width == 4,
            s.section_count == 0,
            s.selection is None,
            s.side_view == DiffSideView::Both,
            !s.search_active,
            s.search_query@.len() == 0,
            s.search_matches@.len() == 0,
            s.search_match_idx == 0,
            s.well_formed(),
    {
        DiffViewState {
            scroll_offset: 0,
            horizontal_scroll: 0,
            lines: Vec::new(),
            hunk_starts: Vec::new(),
            filename: String::new(),
            old_content: String::new(),
            new_content: String::new(),
            tab_width: 4,
            section_count: 0,
            selection: None,
            side_view: DiffSideView::Both,
            search_active: false,
            search_query: String::new(),
            search_matches: Vec::new(),
            search_match_idx: 0,
        }
    }

    /// Whether there is no diff to show.
    pub fn is_empty(&self) -> (b: bool)
        ensures
            b == (self.lines@.len() == 0),
    {
        self.lines.len() == 0
    }

    /// Scrolls up by `amount` rows, stopping at the top.
    pub fn scroll_up(&mut self, amount: usize)
        ensures
            final(self).scroll_offset == sat_sub(old(self).scroll_offset as int, amount as int),
            DiffViewState::same_but_scroll(final(self), old(self)),
            old(self).well_formed() ==> final(self).well_formed(),
    {
        self.scroll_offset = self.scroll_offset.saturating_sub(amount);
    }

    /// Scrolls down by `amount` rows, stopping at the last row.
    pub fn scroll_down(&mut self, amount: usize)
        ensures
            final(self).scroll_offset == (if old(self).scroll_offset + amount < max_scroll(old(self).lines@.len()) {
                old(self).scroll_offset + amount
            } else {
                max_scroll(old(self).lines@.len())
            }),
            DiffViewState::same_but_scroll(final(self), old(self)),
            final(self).scroll_offset <= max_scroll(final(self).lines@.len()),
            old(self).well_formed() ==> final(self).well_formed(),
    {
        let max = self.lines.len().saturating_sub(1);
        if self.scroll_offset < max && amount < max - self.scroll_offset {
            self.scroll_offset = self.scroll_offset + amount;
        } else {
            self.scroll_offset = max;
        }
    }

    /// Scrolls left by `amount` columns, stopping at the first.
    pub fn scroll_left(&mut self, amount: usize)
        ensures
            final(self).horizontal_scroll == sat_sub(old(self).horizontal_scroll as int, amount as int),
            final(self).scroll_offset == old(self).scroll_offset,
            final(self).lines == old(self).lines,
            final(self).search_matches == old(self).search_matches,
            final(self).search_match_idx == old(self).search_match_idx,
            final(self).hunk_starts == old(self).hunk_starts,
            old(self).well_formed() ==> final(self).well_formed(),
    {
        self.horizontal_scroll = self.horizontal_scroll.saturating_sub(amount);
    }

    /// Scrolls right by `amount` columns.
    pub fn scroll_right(&mut self, amount: usize)
        requires
            old(self).horizontal_scroll + amount <= usize::MAX,
        ensures
            final(self).horizontal_scroll == old(self).horizontal_scroll + amount,
            final(self).scroll_offset == old(self).scroll_offset,
            final(self).lines == old(self).lines,
            final(self).search_matches == old(self).search_matches,
            final(self).search_match_idx == old(self).search_match_idx,
            final(self).hunk_starts == old(self).hunk_starts,
            old(self).well_formed() ==> final(self).well_formed(),
    {
        self.horizontal_scroll = self.horizontal_scroll + amount;
    }

    /// Jumps to the first hunk that starts below the current row, if any.
    pub fn next_hunk(&mut self)
        ensures
            final(self).scroll_offset == (match next_hunk_start(old(self).hunk_starts@, old(self).scroll_offset) {
                Some(h) => h,
                None => old(self).scroll_offset,
            }),
            DiffViewState::same_but_scroll(final(self), old(self)),
            old(self).well_formed() ==> final(self).well_formed(),
    {
        proof {
            lemma_next_hunk_start_in(self.hunk_starts@, self.scroll_offset);
        }
        if let Some(h) = find_next_hunk(&self.hunk_starts, self.scroll_offset) {
            self.scroll_offset = h;
        }
    }

    /// Jumps to the last hunk that starts above the current row, if any.
    pub fn prev_hunk(&mut self)
        ensures
            final(self).scroll_offset == (match prev_hunk_start(old(self).hunk_starts@, old(self).scroll_offset) {
                Some(h) => h,
                None => old(self).scroll_offset,
            }),
            DiffViewState::same_but_scroll(final(self), old(self)),
            old(self).well_formed() ==> final(self).well_formed(),
    {
        proof {
            lemma_prev_hunk_start_in(self.hunk_starts@, self.scroll_offset);
        }
        if let Some(h) = find_prev_hunk(&self.hunk_starts, self.scroll_offset) {
            self.scroll_offset = h;
        }
    }
}

/// The scroll position that shows match `idx`: unchanged when there is no such match or
/// when its row is among the twenty from `off`, else five rows above the match's row (or
/// the top).
pub open spec fn scroll_for_match(matches: Seq<DiffSearchMatch>, idx: int, off: int) -> int {
    if 0 <= idx < matches.len() {
        let line = matches[idx].line_idx as int;
        if line < off || line >= off + 20 {
            sat_sub(line, 5)
        } else {
            off
        }
    } else {
        off
    }
}

impl DiffViewState {
    /// Everything but the search state is the same in `a` and `b`.
    pub open spec fn same_but_search(a: &DiffViewState, b: &DiffViewState) -> bool {
        &&& a.scroll_offset == b.scroll_offset
        &&& a.horizontal_scroll == b.horizontal_scroll
        &&& a.lines == b.lines
        &&& a.hunk_starts == b.hunk_starts
        &&& a.filename == b.filename
        &&& a.old_content == b.old_content
        &&& a.new_content == b.new_content
        &&& a.tab_width == b.tab_width
        &&& a.section_count == b.section_count
        &&& a.selection == b.selection
        &&& a.side_view == b.side_view
    }

    /// Opens the search input with an empty query and no matches.
    pub fn start_search(&mut self)
        ensures
            final(self).search_active,
            final(self).search_query@.len() == 0,
            final(self).search_matches@.len() == 0,
            final(self).search_match_idx == 0,
            DiffViewState::same_but_search(final(self), old(self)),
            old(self).well_formed() ==> final(self).well_formed(),
    {
        self.search_active = true;
        self.search_query = String::new();
        self.search_matches = Vec::new();
        self.search_match_idx = 0;
    }

    /// Closes the search input, keeping the query and its matches.
    pub fn dismiss_search(&mut self)
        ensures
            !final(self).search_active,
            final(self).search_query == old(self).search_query,
            final(self).search_matches == old(self).search_matches,
            final(self).search_match_idx == old(self).search_match_idx,
            DiffViewState::same_but_search(final(self), old(self)),
            old(self).well_formed() ==> final(self).well_formed(),
    {
        self.search_active = false;
    }

    /// Ends the search: no input, no query, no matches.
    pub fn clear_search(&mut self)
        ensures
            !final(self).search_active,
            final(self).search_query@.len() == 0,
            final(self).search_matches@.len() == 0,
            final(self).search_match_idx == 0,
            DiffViewState::same_but_search(final(self), old(self)),
            old(self).well_formed() ==> final(self).well_formed(),
    {
        self.search_active = false;
        self.search_query = String::new();
        self.search_matches = Vec::new();
        self.search_match_idx = 0;
    }

    /// Scrolls so that the current match is shown (see `scroll_for_match`).
    pub fn scroll_to_current_match(&mut self)
        ensures
            final(self).scroll_offset == scroll_for_match(
                old(self).search_matches@,
                old(self).search_match_idx as int,
                old(self).scroll_offset as int,
            ),
            DiffViewState::same_but_scroll(final(self), old(self)),
            old(self).well_formed() ==> final(self).well_formed(),
    {
        if self.search_match_idx < self.search_matches.len() {
            let line = self.search_matches[self.search_match_idx].line_idx;
            if line < self.scroll_offset || line - self.scroll_offset >= 20 {
                self.scroll_offset = line.saturating_sub(5);
            }
        }
    }

    /// Moves to the next match, after the last back to the first, and shows it; nothing
    /// happens when there is no match.
    pub fn next_search_match(&mut self)
        ensures
            old(self).search_matches@.len() == 0 ==> *final(self) == *old(self),
            old(self).search_matches@.len() > 0 ==> {
                let idx = (old(self).search_match_idx + 1) % (old(self).search_matches@.len() as int);
                &&& final(self).search_match_idx == idx
                &&& final(self).scroll_offset == scroll_for_match(old(self).search_matches@, idx, old(self).scroll_offset as int)
            },
            final(self).search_matches == old(self).search_matches,
            final(self).search_active == old(self).search_active,
            final(self).search_query == old(self).search_query,
            final(self).lines == old(self).lines,
            final(self).hunk_starts == old(self).hunk_starts,
            old(self).well_formed() ==> final(self).well_formed(),
    {
        let n = self.search_matches.len();
        if n == 0 {
            return;
        }
        let i = self.search_match_idx % n;
        proof {
            assert((self.search_match_idx + 1) % (n as int) == ((i + 1) % (n as int))) by (nonlinear_arith)
                requires
                    i == self.search_match_idx % n,
                    n > 0,
            ;
            assert(i < n);
            assert((i + 1) % (n as int) == (if i + 1 == n { 0 } else { i + 1 })) by (nonlinear_arith)
                requires
                    i < n,
                    n > 0,
            ;
        }
        self.search_match_idx = if i + 1 == n {
            0
        } else {
            i + 1
        };
        self.scroll_to_current_match();
    }

    /// Moves to the previous match, before the first back to the last, and shows it;
    /// nothing happens when there is no match.
    pub fn prev_search_match(&mut self)
        ensures
            old(self).search_matches@.len() == 0 ==> *final(self) == *old(self),
            old(self).search_matches@.len() > 0 ==> {
                let idx = if old(self).search_match_idx == 0 {
                    old(self).search_matches@.len() - 1
                } else {
                    old(self).search_match_idx - 1
                };
                &&& final(self).search_match_idx == idx
                &&& final(self).scroll_offset == scroll_for_match(old(self).search_matches@, idx, old(self).scroll_offset as int)
            },
            final(self).search_matches == old(self).search_matches,
            final(self).search_active == old(self).search_active,
            final(self).search_query == old(self).search_query,
            final(self).lines == old(self).lines,
            final(self).hunk_starts == old(self).hunk_starts,
            old(self).well_formed() ==> final(self).well_formed(),
    {
        let n = self.search_matches.len();
        if n == 0 {
            return;
        }
        if self.search_match_idx == 0 {
            self.search_match_idx = n - 1;
        } else {
            self.search_match_idx = self.search_match_idx - 1;
        }
        self.scroll_to_current_match();
    }
}

/// Every hunk start is a row.
proof fn lemma_hunk_starts_bounded(ts: Seq<ChangeType>)
    ensures
        forall|k: int| 0 <= k < hunk_starts(ts).len() ==> 0 <= #[trigger] hunk_starts(ts)[k] < ts.len(),
    decreases ts.len(),
{
    if ts.len() > 0 {
        lemma_hunk_starts_bounded(ts.drop_last());
        let rest = hunk_starts(ts.drop_last());
        let h = hunk_starts(ts);
        assert forall|k: int| 0 <= k < h.len() implies 0 <= #[trigger] h[k] < ts.len() by {
            if k < rest.len() {
                assert(h[k] == rest[k]);
            }
        }
    }
}

/// The row views of a state's rows, as the views of `usize` hunk starts.
pub open spec fn starts_view(v: Seq<usize>) -> Seq<int> {
    v.map_values(|i: usize| i as int)
}

/// The smaller of `a` and `b`.
pub open spec fn min_int(a: int, b: int) -> int {
    if a < b {
        a
    } else {
        b
    }
}

impl DiffViewState {
    /// What loading keeps or resets: for the same file as before, the scroll position
    /// (moved up to the last row when the diff got shorter), the horizontal scroll, the
    /// selection and the search; for another file, all of them reset.
    pub open spec fn reload_position(a: &DiffViewState, b: &DiffViewState, same_file: bool) -> bool {
        if same_file {
            &&& a.scroll_offset == min_int(b.scroll_offset as int, max_scroll(a.lines@.len()))
            &&& a.horizontal_scroll == b.horizontal_scroll
            &&& a.selection == b.selection
            &&& a.search_active == b.search_active
            &&& a.search_query == b.search_query
            &&& a.search_matches == b.search_matches
            &&& a.search_match_idx == b.search_match_idx
        } else {
            &&& a.scroll_offset == 0
            &&& a.horizontal_scroll == 0
            &&& a.selection is None
            &&& !a.search_active
            &&& a.search_query@.len() == 0
            &&& a.search_matches@.len() == 0
            &&& a.search_match_idx == 0
        }
    }

    /// Puts the scroll and search state after loading new rows (see `reload_position`).
    fn settle_after_load(&mut self, same_file: bool)
        ensures
            DiffViewState::reload_position(final(self), old(self), same_file),
            final(self).lines == old(self).lines,
            final(self).hunk_starts == old(self).hunk_starts,
            final(self).filename == old(self).filename,
            final(self).old_content == old(self).old_content,
            final(self).new_content == old(self).new_content,
            final(self).tab_width == old(self).tab_width,
            final(self).section_count == old(self).section_count,
            final(self).side_view == old(self).side_view,
    {
        if same_file {
            let max = self.lines.len().saturating_sub(1);
            if self.scroll_offset > max {
                self.scroll_offset = max;
            }
        } else {
            self.scroll_offset = 0;
            self.horizontal_scroll = 0;
            self.selection = None;
            self.clear_search();
        }
    }

    /// Shows the diff of `old_text` and `new_text` for `filename` (see `compute_side_by_side`), as
    /// one section.  Reloading the same file keeps the position (see `reload_position`);
    /// the side view and tab width stay.
    pub fn load(&mut self, filename: &str, old_text: &str, new_text: &str)
        requires
            old(self).tab_width > 0 || (!has_tab(old_text@) && !has_tab(new_text@)),
        ensures
            final(self).filename@ == filename@,
            final(self).old_content@ == old_text@,
            final(self).new_content@ == new_text@,
            rows_view(final(self).lines@) == side_by_side_rows(old_text@, new_text@, old(self).tab_width as nat),
            forall|k: int| 0 <= k < final(self).lines@.len() ==> crate::pager::diff_algo::is_plain_row(#[trigger] final(self).lines@[k]),
            starts_view(final(self).hunk_starts@) == hunk_starts(change_types(final(self).lines@)),
            final(self).section_count == 1,
            final(self).tab_width == old(self).tab_width,
            final(self).side_view == old(self).side_view,
            DiffViewState::reload_position(final(self), old(self), old(self).filename@ == filename@),
            old(self).filename@ != filename@ ==> final(self).well_formed(),
    {
        let same_file = chars_eq_str(self.filename.as_str(), filename);
        self.filename = crate::text::owned(filename);
        self.old_content = crate::text::owned(old_text);
        self.new_content = crate::text::owned(new_text);
        self.lines = compute_side_by_side(old_text, new_text, self.tab_width);
        self.hunk_starts = find_hunk_starts(&self.lines);
        self.section_count = 1;
        proof {
            lemma_hunk_starts_bounded(change_types(self.lines@));
            assert forall|k: int| 0 <= k < self.hunk_starts@.len() implies #[trigger] self.hunk_starts@[k] < self.lines@.len() by {
                assert(starts_view(self.hunk_starts@)[k] == self.hunk_starts@[k] as int);
            }
        }
        self.settle_after_load(same_file);
    }
}

/// Whether two strings are equal.
fn chars_eq_str(a: &str, b: &str) -> (r: bool)
    ensures
        r == (a@ == b@),
{
    let x = chars_of(a);
    let y = chars_of(b);
    crate::text::chars_eq(&x, &y)
}

proof fn lemma_sections_scan_no_tab(lines: Seq<Seq<char>>)
    requires
        no_tabs(lines),
    ensures
        forall|k: int| 0 <= k < sections_scan(lines).0.len() ==> no_tabs(#[trigger] sections_scan(lines).0[k].1),
        no_tabs(sections_scan(lines).2),
    decreases lines.len(),
{
    if lines.len() > 0 {
        let init = lines.drop_last();
        assert forall|k: int| 0 <= k < init.len() implies !has_tab(#[trigger] init[k]) by {
            assert(init[k] == lines[k]);
        }
        lemma_sections_scan_no_tab(init);
        let st = sections_scan(init);
        let r = sections_scan(lines);
        assert(!has_tab(lines[lines.len() - 1]));
        assert forall|k: int| 0 <= k < r.0.len() implies no_tabs(#[trigger] r.0[k].1) by {
            if k < st.0.len() {
                assert(r.0[k] == st.0[k]);
            }
        }
        assert forall|k: int| 0 <= k < r.2.len() implies !has_tab(#[trigger] r.2[k]) by {
            if k < st.2.len() && r.2.len() > 0 && r.2 != st.2 {
                assert(r.2[k] == st.2[k]);
            }
        }
    }
}

/// The sections of a tab-free diff are tab-free.
proof fn lemma_file_sections_no_tab(diff: Seq<char>)
    requires
        !has_tab(diff),
    ensures
        forall|k: int| 0 <= k < file_sections(diff).len() ==> !has_tab(#[trigger] file_sections(diff)[k].1),
{
    lemma_lines_no_tab(diff);
    lemma_sections_scan_no_tab(lines_of(diff));
    reveal_strlit("\n");
    let st = sections_scan(lines_of(diff));
    let all = if st.1.len() > 0 {
        st.0.push((st.1, st.2))
    } else {
        st.0
    };
    assert forall|k: int| 0 <= k < file_sections(diff).len() implies !has_tab(#[trigger] file_sections(diff)[k].1) by {
        assert(file_sections(diff)[k].1 == join_with(all[k].1, "\n"@));
        if k < st.0.len() {
            assert(all[k] == st.0[k]);
        }
        lemma_join_no_tab(all[k].1, "\n"@);
    }
}

/// The full view of a row: its content, its file header, its number of notes and its
/// section.
pub open spec fn full_row(d: DiffLine) -> (crate::pager::diff_algo::RowView, Option<Seq<char>>, nat, nat) {
    (
        crate::pager::diff_algo::row_view(d),
        match d.file_header {
            Some(h) => Some(h@),
            None => None,
        },
        d.comment_notes@.len(),
        d.section_index as nat,
    )
}

/// The full views of rows.
pub open spec fn full_rows(v: Seq<DiffLine>) -> Seq<(crate::pager::diff_algo::RowView, Option<Seq<char>>, nat, nat)> {
    v.map_values(|d: DiffLine| full_row(d))
}

/// Appends the plain rows `rows` to `out`, as rows of section `k`.
fn append_in_section(out: &mut Vec<DiffLine>, rows: Vec<DiffLine>, k: usize)
    requires
        forall|j: int| 0 <= j < rows@.len() ==> crate::pager::diff_algo::is_plain_row(#[trigger] rows@[j]),
    ensures
        full_rows(final(out)@) == full_rows(old(out)@) + rows_view(rows@).map_values(
            |r: crate::pager::diff_algo::RowView| (r, None::<Seq<char>>, 0nat, k as nat),
        ),
{
    let ghost start = full_rows(out@);
    let ghost rv = rows_view(rows@).map_values(|r: crate::pager::diff_algo::RowView| (r, None::<Seq<char>>, 0nat, k as nat));
    let ghost rs = rows@;
    for r in it: rows.into_iter()
        invariant
            rs.len() == rv.len(),
            it.seq() == rs,
            rv == rows_view(rs).map_values(|r: crate::pager::diff_algo::RowView| (r, None::<Seq<char>>, 0nat, k as nat)),
            forall|j: int| 0 <= j < rs.len() ==> crate::pager::diff_algo::is_plain_row(#[trigger] rs[j]),
            full_rows(out@) == start + rv.take(it.index() as int),
    {
        let DiffLine { old_line, new_line, change_type, old_segments, new_segments, file_header, comment_notes, section_index } = r;
        let row = DiffLine {
            old_line,
            new_line,
            change_type,
            old_segments,
            new_segments,
            file_header,
            comment_notes,
            section_index: k,
        };
        proof {
            let j = it.index() as int;
            assert(rs[j] == r);
            assert(full_row(row) == rv[j]);
            assert(full_rows(out@.push(row)) == full_rows(out@).push(full_row(row)));
            assert(rv.take(j + 1) == rv.take(j).push(rv[j]));
        }
        out.push(row);
    }
    proof {
        assert(rv.take(rv.len() as int) == rv);
    }
}

/// The header row of section `k`, naming its file.
pub open spec fn header_row(name: Seq<char>, k: nat) -> (crate::pager::diff_algo::RowView, Option<Seq<char>>, nat, nat) {
    ((None, None, ChangeType::Equal, None, None), Some(name), 0, k)
}

/// The rows of section `k`: its header row, then the side-by-side rows of the old and
/// new text of its diff.
pub open spec fn section_rows(sec: (Seq<char>, Seq<char>), k: nat, tab_width: nat) -> Seq<(crate::pager::diff_algo::RowView, Option<Seq<char>>, nat, nat)> {
    let c = diff_contents(sec.1);
    seq![header_row(sec.0, k)] + side_by_side_rows(c.0, c.1, tab_width).map_values(
        |r: crate::pager::diff_algo::RowView| (r, None::<Seq<char>>, 0nat, k),
    )
}

/// The rows of all sections, in order.
pub open spec fn multi_rows(secs: Seq<(Seq<char>, Seq<char>)>, tab_width: nat) -> Seq<(crate::pager::diff_algo::RowView, Option<Seq<char>>, nat, nat)>
    decreases secs.len(),
{
    if secs.len() == 0 {
        seq![]
    } else {
        multi_rows(secs.drop_last(), tab_width) + section_rows(secs.last(), (secs.len() - 1) as nat, tab_width)
    }
}

/// The title of a diff of `count` files: `name (count files)`.
pub open spec fn multi_name(name: Seq<char>, count: nat) -> Seq<char> {
    name + " ("@ + decimal(count) + " files)"@
}

impl DiffViewState {
    /// Shows `git diff` output.  A diff of at most one file is shown as one section,
    /// titled with the file name of its header (or `filename` without one).  A diff of
    /// several files is shown as one section per file, each behind a header row, titled
    /// `filename (n files)`, with no old or new content of its own.
    pub fn load_from_diff_output(&mut self, filename: &str, diff_output: &str)
        requires
            old(self).tab_width > 0 || !has_tab(diff_output@),
        ensures
            starts_view(final(self).hunk_starts@) == hunk_starts(change_types(final(self).lines@)),
            final(self).tab_width == old(self).tab_width,
            final(self).side_view == old(self).side_view,
            file_sections(diff_output@).len() <= 1 ==> {
                let c = diff_contents(diff_output@);
                let name = if file_sections(diff_output@).len() == 1 {
                    file_sections(diff_output@)[0].0
                } else {
                    filename@
                };
                &&& final(self).filename@ == name
                &&& final(self).old_content@ == c.0
                &&& final(self).new_content@ == c.1
                &&& rows_view(final(self).lines@) == side_by_side_rows(c.0, c.1, old(self).tab_width as nat)
                &&& forall|k: int| 0 <= k < final(self).lines@.len() ==> crate::pager::diff_algo::is_plain_row(#[trigger] final(self).lines@[k])
                &&& final(self).section_count == 1
                &&& DiffViewState::reload_position(final(self), old(self), old(self).filename@ == name)
            },
            file_sections(diff_output@).len() > 1 ==> {
                let secs = file_sections(diff_output@);
                let name = multi_name(filename@, secs.len());
                &&& final(self).filename@ == name
                &&& final(self).old_content@.len() == 0
                &&& final(self).new_content@.len() == 0
                &&& full_rows(final(self).lines@) == multi_rows(secs, old(self).tab_width as nat)
                &&& final(self).section_count == secs.len()
                &&& DiffViewState::reload_position(final(self), old(self), old(self).filename@ == name)
            },
            old(self).filename@ != final(self).filename@ ==> final(self).well_formed(),
    {
        let secs = parse_multi_file_diff(diff_output);
        let ghost sv = pairs_view(secs@);
        proof {
            if !has_tab(diff_output@) {
                lemma_file_sections_no_tab(diff_output@);
            }
        }
        if secs.len() <= 1 {
            let (o, n) = parse_unified_diff(diff_output);
            if secs.len() == 1 {
                proof {
                    assert(sv[0].0 == secs@[0].0@);
                }
                self.load(secs[0].0.as_str(), o.as_str(), n.as_str());
            } else {
                self.load(filename, o.as_str(), n.as_str());
            }
            return;
        }
        let count = secs.len();
        let mut name = cat(filename, " (");
        let cs = decimal_string(count as u64);
        name.append(cs.as_str());
        name.append(" files)");
        let same_file = chars_eq_str(self.filename.as_str(), name.as_str());
        let ghost tw = self.tab_width;
        self.filename = name;
        self.old_content = String::new();
        self.new_content = String::new();
        self.lines = Vec::new();
        self.section_count = count;
        let mut k: usize = 0;
        proof {
            assert(sv.take(0).len() == 0);
            assert(full_rows(self.lines@) =~= seq![]);
        }
        while k < count
            invariant
                k <= count == secs@.len(),
                sv == pairs_view(secs@),
                sv == file_sections(diff_output@),
                tw == self.tab_width,
                tw > 0 || forall|j: int| 0 <= j < sv.len() ==> !has_tab(#[trigger] sv[j].1),
                full_rows(self.lines@) == multi_rows(sv.take(k as int), tw as nat),
                self.filename@ == multi_name(filename@, count as nat),
                self.old_content@.len() == 0,
                self.new_content@.len() == 0,
                self.section_count == count,
                self.tab_width == old(self).tab_width,
                self.side_view == old(self).side_view,
                self.scroll_offset == old(self).scroll_offset,
                self.horizontal_scroll == old(self).horizontal_scroll,
                self.selection == old(self).selection,
                self.search_active == old(self).search_active,
                self.search_query == old(self).search_query,
                self.search_matches == old(self).search_matches,
                self.search_match_idx == old(self).search_match_idx,
            decreases count - k,
        {
            let (o, n) = parse_unified_diff(secs[k].1.as_str());
            let header = DiffLine {
                old_line: None,
                new_line: None,
                change_type: ChangeType::Equal,
                old_segments: None,
                new_segments: None,
                file_header: Some(secs[k].0.clone()),
                comment_notes: Vec::new(),
                section_index: k,
            };
            proof {
                assert(sv[k as int] == (secs@[k as int].0@, secs@[k as int].1@));
                assert(full_row(header) == header_row(sv[k as int].0, k as nat));
                if tw == 0 {
                    assert(!has_tab(sv[k as int].1));
                }
                assert(full_rows(self.lines@.push(header)) == full_rows(self.lines@).push(full_row(header)));
            }
            self.lines.push(header);
            let rows = compute_side_by_side(o.as_str(), n.as_str(), self.tab_width);
            append_in_section(&mut self.lines, rows, k);
            proof {
                let t = sv.take(k + 1);
                assert(t.drop_last() == sv.take(k as int));
                assert(t.last() == sv[k as int]);
                assert(full_rows(self.lines@) =~= multi_rows(t, tw as nat));
            }
            k = k + 1;
        }
        proof {
            assert(sv.take(sv.len() as int) == sv);
        }
        self.hunk_starts = find_hunk_starts(&self.lines);
        proof {
            lemma_hunk_starts_bounded(change_types(self.lines@));
            assert forall|j: int| 0 <= j < self.hunk_starts@.len() implies #[trigger] self.hunk_starts@[j] < self.lines@.len() by {
                assert(starts_view(self.hunk_starts@)[j] == self.hunk_starts@[j] as int);
            }
        }
        self.settle_after_load(same_file);
    }
}

// ---------------------------------------------------------------------------
// Searching the diff
// ---------------------------------------------------------------------------

/// A match as (row, panel, byte offset).
pub open spec fn match_view(m: DiffSearchMatch) -> (int, DiffPanel, int) {
    (m.line_idx as int, m.panel, m.col as int)
}

/// The views of matches.
pub open spec fn matches_view(v: Seq<DiffSearchMatch>) -> Seq<(int, DiffPanel, int)> {
    v.map_values(|m: DiffSearchMatch| match_view(m))
}

/// The matches of `q` in the (lowercase) text `t` of row `line` on `panel`: every
/// occurrence, overlapping ones included, at its byte offset.
pub open spec fn side_matches(t: Seq<char>, q: Seq<char>, line: int, panel: DiffPanel) -> Seq<(int, DiffPanel, int)> {
    occurrences(t, q).map_values(|i: int| (line, panel, prefix_bytes(t, i) as int))
}

/// `t` can be searched for `q` byte-wise, moving one byte past each match: `q` is not
/// empty, every occurrence begins with a one-byte character, and the text's length in
/// bytes fits in `usize`.
pub open spec fn side_searchable(t: Seq<char>, q: Seq<char>) -> bool {
    &&& q.len() > 0
    &&& byte_len(t) <= usize::MAX
    &&& forall|k: int| 0 <= k < occurrences(t, q).len() ==> utf8_len(t[#[trigger] occurrences(t, q)[k]]) == 1
}

/// The lowercase text of one side of a row.
pub open spec fn side_text(side: Option<(usize, String)>) -> Option<Seq<char>> {
    match side {
        Some((_, t)) => Some(lowercase_of(t@)),
        None => None,
    }
}

/// The matches on one side of a row.
pub open spec fn opt_matches(t: Option<Seq<char>>, q: Seq<char>, line: int, panel: DiffPanel) -> Seq<(int, DiffPanel, int)> {
    match t {
        Some(t) => side_matches(t, q, line, panel),
        None => seq![],
    }
}

/// One side of a row can be searched.
pub open spec fn opt_searchable(t: Option<Seq<char>>, q: Seq<char>) -> bool {
    match t {
        Some(t) => side_searchable(t, q),
        None => true,
    }
}

/// The matches of `q` in row `line` (none in a file header row): the old side's, then
/// the new side's.
pub open spec fn row_matches(d: DiffLine, q: Seq<char>, line: int) -> Seq<(int, DiffPanel, int)> {
    if d.file_header is Some {
        seq![]
    } else {
        opt_matches(side_text(d.old_line), q, line, DiffPanel::Old) + opt_matches(side_text(d.new_line), q, line, DiffPanel::New)
    }
}

/// A row can be searched for `q`.
pub open spec fn row_searchable(d: DiffLine, q: Seq<char>) -> bool {
    d.file_header is Some || (opt_searchable(side_text(d.old_line), q) && opt_searchable(side_text(d.new_line), q))
}

/// The matches of `q` in all rows, row by row.
pub open spec fn search_results(lines: Seq<DiffLine>, q: Seq<char>) -> Seq<(int, DiffPanel, int)>
    decreases lines.len(),
{
    if lines.len() == 0 {
        seq![]
    } else {
        search_results(lines.drop_last(), q) + row_matches(lines.last(), q, lines.len() - 1)
    }
}

/// Every row can be searched for `q`.
pub open spec fn searchable(lines: Seq<DiffLine>, q: Seq<char>) -> bool {
    forall|k: int| 0 <= k < lines.len() ==> row_searchable(#[trigger] lines[k], q)
}

/// The byte offsets of the occurrences of `q` in `t`, or none when `t` cannot be searched
/// for `q` (see `side_searchable`).
fn side_offsets(t: &[char], q: &[char]) -> (r: Option<Vec<usize>>)
    ensures
        r is Some <==> side_searchable(t@, q@),
        r matches Some(v) ==> v@.map_values(|b: usize| b as int) == occurrences(t@, q@).map_values(
            |i: int| prefix_bytes(t@, i) as int,
        ),
{
    if q.len() == 0 {
        return None;
    }
    let ghost tv = t@;
    let ghost qv = q@;
    let mut out: Vec<usize> = Vec::new();
    let mut b: u128 = 0;
    let mut i: usize = 0;
    proof {
        assert(tv.take(0).len() == 0);
        assert(out@.map_values(|b: usize| b as int) =~= occurrences_before(tv, qv, 0).map_values(|i: int| prefix_bytes(tv, i) as int));
    }
    while i < t.len()
        invariant
            tv == t@,
            qv == q@,
            qv.len() > 0,
            i <= t.len(),
            b == prefix_bytes(tv, i as int),
            b <= 4 * i,
            out@.map_values(|b: usize| b as int) == occurrences_before(tv, qv, i as int).map_values(|i: int| prefix_bytes(tv, i) as int),
            forall|k: int| 0 <= k < occurrences_before(tv, qv, i as int).len() ==> utf8_len(tv[#[trigger] occurrences_before(tv, qv, i as int)[k]]) == 1,
            forall|k: int| 0 <= k < occurrences_before(tv, qv, i as int).len() ==> 0 <= #[trigger] occurrences_before(tv, qv, i as int)[k] < i,
        decreases t.len() - i,
    {
        let n = char_utf8_len(t[i]);
        proof {
            assert(tv.take(i + 1).drop_last() == tv.take(i as int));
            assert(tv.take(i + 1).last() == tv[i as int]);
        }
        if matches_at(t, q, i) {
            if n != 1 {
                proof {
                    let o = occurrences(tv, qv);
                    lemma_occurrences_prefix(tv, qv, i as int + 1, tv.len() as int + 1);
                    assert(occurrences_before(tv, qv, i + 1).last() == i);
                    let k = occurrences_before(tv, qv, i + 1).len() - 1;
                    assert(o[k] == i);
                }
                return None;
            }
            if b > usize::MAX as u128 {
                proof {
                    lemma_prefix_bytes_bound(tv, i as int);
                }
                return None;
            }
            proof {
                assert(out@.push(b as usize).map_values(|b: usize| b as int) =~= out@.map_values(|b: usize| b as int).push(b as int));
            }
            out.push(b as usize);
        }
        proof {
            let ob = occurrences_before(tv, qv, i + 1);
            assert forall|k: int| 0 <= k < ob.len() implies utf8_len(tv[#[trigger] ob[k]]) == 1 by {
                if k < occurrences_before(tv, qv, i as int).len() {
                    assert(ob[k] == occurrences_before(tv, qv, i as int)[k]);
                }
            }
            assert forall|k: int| 0 <= k < ob.len() implies 0 <= #[trigger] ob[k] < i + 1 by {
                if k < occurrences_before(tv, qv, i as int).len() {
                    assert(ob[k] == occurrences_before(tv, qv, i as int)[k]);
                }
            }
            assert(ob.map_values(|i: int| prefix_bytes(tv, i) as int) =~= (if occurs_at(tv, qv, i as int) {
                occurrences_before(tv, qv, i as int).map_values(|i: int| prefix_bytes(tv, i) as int).push(prefix_bytes(tv, i as int) as int)
            } else {
                occurrences_before(tv, qv, i as int).map_values(|i: int| prefix_bytes(tv, i) as int)
            }));
        }
        b = b + n as u128;
        i = i + 1;
    }
    proof {
        assert(tv.take(tv.len() as int) == tv);
        assert(!occurs_at(tv, qv, tv.len() as int));
        assert(occurrences(tv, qv) == occurrences_before(tv, qv, tv.len() as int));
    }
    if b > usize::MAX as u128 {
        return None;
    }
    Some(out)
}

/// The occurrences before `n` are the first ones before any `m >= n`.
proof fn lemma_occurrences_prefix(t: Seq<char>, q: Seq<char>, n: int, m: int)
    requires
        0 <= n <= m,
    ensures
        occurrences_before(t, q, n).len() <= occurrences_before(t, q, m).len(),
        forall|k: int| 0 <= k < occurrences_before(t, q, n).len() ==> #[trigger] occurrences_before(t, q, m)[k] == occurrences_before(t, q, n)[k],
    decreases m - n,
{
    if m > n {
        lemma_occurrences_prefix(t, q, n, m - 1);
    }
}

/// A prefix has no more bytes than the whole.
proof fn lemma_prefix_bytes_bound(t: Seq<char>, i: int)
    requires
        0 <= i <= t.len(),
    ensures
        prefix_bytes(t, i) <= byte_len(t),
{
    if i < t.len() {
        crate::text::lemma_prefix_bytes_mono(t, i, t.len() as int);
    }
    assert(t.take(t.len() as int) == t);
}

/// Appends the matches of `q` on one side of row `line` to `out`, or gives false when
/// that side cannot be searched.
fn push_side_matches(out: &mut Vec<DiffSearchMatch>, side: &Option<(usize, String)>, q: &[char], line: usize, panel: DiffPanel) -> (ok: bool)
    ensures
        ok == opt_searchable(side_text(*side), q@),
        ok ==> matches_view(final(out)@) == matches_view(old(out)@) + opt_matches(side_text(*side), q@, line as int, panel),
        forall|k: int| 0 <= k < old(out)@.len() ==> final(out)@[k] == old(out)@[k],
        forall|k: int| old(out)@.len() <= k < final(out)@.len() ==> (#[trigger] final(out)@[k]).line_idx == line,
{
    match side {
        None => true,
        Some((_, text)) => {
            let lower = to_lowercase(text.as_str());
            let t = chars_of(lower.as_str());
            match side_offsets(&t, q) {
                None => false,
                Some(offs) => {
                    let ghost start = matches_view(out@);
                    let ghost start_len = out@.len();
                    let ghost want = side_matches(t@, q@, line as int, panel);
                    let ghost occ = occurrences(t@, q@);
                    proof {
                        assert(offs@.map_values(|b: usize| b as int).len() == offs@.len());
                        assert(occ.map_values(|i: int| prefix_bytes(t@, i) as int).len() == occ.len());
                        assert(want.len() == occ.len());
                    }
                    let mut j: usize = 0;
                    while j < offs.len()
                        invariant
                            j <= offs@.len(),
                            start_len <= out@.len(),
                            offs@.map_values(|b: usize| b as int) == occurrences(t@, q@).map_values(|i: int| prefix_bytes(t@, i) as int),
                            want == side_matches(t@, q@, line as int, panel),
                            occ == occurrences(t@, q@),
                            offs@.len() == want.len(),
                            want.len() == occ.len(),
                            matches_view(out@) == start + want.take(j as int),
                            out@.len() == start_len + j,
                            forall|k: int| 0 <= k < start_len ==> out@[k] == old(out)@[k],
                            start_len == old(out)@.len(),
                            start == matches_view(old(out)@),
                            forall|k: int| start_len <= k < out@.len() ==> (#[trigger] out@[k]).line_idx == line,
                        decreases offs@.len() - j,
                    {
                        let m = DiffSearchMatch { line_idx: line, panel, col: offs[j] };
                        proof {
                            let ov = offs@.map_values(|b: usize| b as int);
                            assert(ov[j as int] == offs@[j as int] as int);
                            assert(ov[j as int] == occ.map_values(|i: int| prefix_bytes(t@, i) as int)[j as int]);
                            assert(occ.map_values(|i: int| prefix_bytes(t@, i) as int)[j as int] == prefix_bytes(t@, occ[j as int]) as int);
                            assert(want[j as int] == (line as int, panel, prefix_bytes(t@, occ[j as int]) as int));
                            assert(match_view(m) == want[j as int]);
                            assert(matches_view(out@.push(m)) =~= matches_view(out@).push(match_view(m)));
                            assert(want.take(j + 1) =~= want.take(j as int).push(want[j as int]));
                        }
                        out.push(m);
                        j = j + 1;
                    }
                    proof {
                        assert(want.take(want.len() as int) == want);
                    }
                    true
                },
            }
        },
    }
}

/// All matches of `q` in `lines`, or none when some row cannot be searched.
fn collect_matches(lines: &Vec<DiffLine>, q: &[char]) -> (r: Option<Vec<DiffSearchMatch>>)
    ensures
        r is Some <==> searchable(lines@, q@),
        r matches Some(v) ==> matches_view(v@) == search_results(lines@, q@),
        r matches Some(v) ==> forall|k: int| 0 <= k < v@.len() ==> (#[trigger] v@[k]).line_idx < lines@.len(),
{
    let mut out: Vec<DiffSearchMatch> = Vec::new();
    let mut k: usize = 0;
    proof {
        assert(lines@.take(0).len() == 0);
        assert(matches_view(out@) =~= seq![]);
    }
    while k < lines.len()
        invariant
            k <= lines@.len(),
            matches_view(out@) == search_results(lines@.take(k as int), q@),
            searchable(lines@.take(k as int), q@),
            forall|j: int| 0 <= j < out@.len() ==> (#[trigger] out@[j]).line_idx < k,
        decreases lines@.len() - k,
    {
        let d = &lines[k];
        proof {
            let t = lines@.take(k + 1);
            assert(t.drop_last() == lines@.take(k as int));
            assert(t.last() == *d);
        }
        if d.file_header.is_none() {
            let ok1 = push_side_matches(&mut out, &d.old_line, q, k, DiffPanel::Old);
            if !ok1 {
                proof {
                    assert(!row_searchable(lines@[k as int], q@));
                }
                return None;
            }
            let ok2 = push_side_matches(&mut out, &d.new_line, q, k, DiffPanel::New);
            if !ok2 {
                proof {
                    assert(!row_searchable(lines@[k as int], q@));
                }
                return None;
            }
        }
        proof {
            let t = lines@.take(k + 1);
            assert(matches_view(out@) =~= search_results(t, q@));
            assert forall|j: int| 0 <= j < t.len() implies row_searchable(#[trigger] t[j], q@) by {
                if j < k {
                    assert(t[j] == lines@.take(k as int)[j]);
                }
            }
        }
        k = k + 1;
    }
    proof {
        assert(lines@.take(lines@.len() as int) == lines@);
    }
    Some(out)
}

impl DiffViewState {
    /// Finds the matches of the query again: none for an empty query; else every
    /// occurrence of the lowercase query in the lowercase text of each side of each row
    /// (file header rows aside), at its byte offset, the old side's before the new
    /// side's; the current match stays, moved back to the last one when fewer remain.
    pub fn update_search(&mut self)
        requires
            old(self).search_query@.len() == 0 || searchable(old(self).lines@, lowercase_of(old(self).search_query@)),
        ensures
            old(self).search_query@.len() == 0 ==> final(self).search_matches@.len() == 0 && final(self).search_match_idx == 0,
            old(self).search_query@.len() > 0 ==> {
                &&& matches_view(final(self).search_matches@) == search_results(old(self).lines@, lowercase_of(old(self).search_query@))
                &&& final(self).search_match_idx == (if final(self).search_matches@.len() == 0 {
                    0
                } else {
                    min_int(old(self).search_match_idx as int, final(self).search_matches@.len() - 1)
                })
            },
            final(self).search_active == old(self).search_active,
            final(self).search_query == old(self).search_query,
            DiffViewState::same_but_search(final(self), old(self)),
            old(self).well_formed() ==> final(self).well_formed(),
    {
        if self.search_query.as_str().is_empty() {
            self.search_matches = Vec::new();
            self.search_match_idx = 0;
            return;
        }
        let lower = to_lowercase(self.search_query.as_str());
        let q = chars_of(lower.as_str());
        match collect_matches(&self.lines, &q) {
            None => {},
            Some(found) => {
                self.search_matches = found;
                if self.search_matches.len() == 0 {
                    self.search_match_idx = 0;
                } else if self.search_match_idx > self.search_matches.len() - 1 {
                    self.search_match_idx = self.search_matches.len() - 1;
                }
            },
        }
    }

    /// Whether the query can be searched for in every row (see `searchable`); an empty
    /// query always can.
    fn can_search(&self) -> (b: bool)
        ensures
            b == (self.search_query@.len() == 0 || searchable(self.lines@, lowercase_of(self.search_query@))),
    {
        if self.search_query.as_str().is_empty() {
            return true;
        }
        let lower = to_lowercase(self.search_query.as_str());
        let q = chars_of(lower.as_str());
        collect_matches(&self.lines, &q).is_some()
    }

    /// Finds the matches of the query again, as `update_search` does, when every row can
    /// be searched for it; else changes nothing and gives false.
    pub fn update_search_checked(&mut self) -> (done: bool)
        ensures
            done == (old(self).search_query@.len() == 0 || searchable(old(self).lines@, lowercase_of(old(self).search_query@))),
            !done ==> *final(self) == *old(self),
            done && old(self).search_query@.len() == 0 ==> final(self).search_matches@.len() == 0 && final(self).search_match_idx == 0,
            done && old(self).search_query@.len() > 0 ==> {
                &&& matches_view(final(self).search_matches@) == search_results(old(self).lines@, lowercase_of(old(self).search_query@))
                &&& final(self).search_match_idx == (if final(self).search_matches@.len() == 0 {
                    0
                } else {
                    min_int(old(self).search_match_idx as int, final(self).search_matches@.len() - 1)
                })
            },
            final(self).search_active == old(self).search_active,
            final(self).search_query == old(self).search_query,
            DiffViewState::same_but_search(final(self), old(self)),
            old(self).well_formed() ==> final(self).well_formed(),
    {
        if self.can_search() {
            self.update_search();
            true
        } else {
            false
        }
    }
}

/// The first of `hs` above `off`.
fn find_next_hunk(hs: &[usize], off: usize) -> (r: Option<usize>)
    ensures
        r == next_hunk_start(hs@, off),
{
    let mut i: usize = 0;
    proof {
        assert(hs@.skip(0) == hs@);
    }
    while i < hs.len()
        invariant
            i <= hs@.len(),
            next_hunk_start(hs@, off) == next_hunk_start(hs@.skip(i as int), off),
        decreases hs@.len() - i,
    {
        proof {
            assert(hs@.skip(i as int)[0] == hs@[i as int]);
            assert(hs@.skip(i as int).drop_first() == hs@.skip(i + 1));
        }
        if hs[i] > off {
            return Some(hs[i]);
        }
        i = i + 1;
    }
    None
}

/// The last of `hs` below `off`.
fn find_prev_hunk(hs: &[usize], off: usize) -> (r: Option<usize>)
    ensures
        r == prev_hunk_start(hs@, off),
{
    let mut i: usize = hs.len();
    proof {
        assert(hs@.take(hs@.len() as int) == hs@);
    }
    while i > 0
        invariant
            i <= hs@.len(),
            prev_hunk_start(hs@, off) == prev_hunk_start(hs@.take(i as int), off),
        decreases i,
    {
        proof {
            assert(hs@.take(i as int).last() == hs@[i - 1]);
            assert(hs@.take(i as int).drop_last() == hs@.take(i - 1));
        }
        if hs[i - 1] < off {
            return Some(hs[i - 1]);
        }
        i = i - 1;
    }
    proof {
        assert(hs@.take(0).len() == 0);
    }
    None
}


// ---------------------------------------------------------------------------
// Laws of the diff view
// ---------------------------------------------------------------------------

/// A click inside a panel's content columns hits that panel, whatever layout was
/// computed.
pub proof fn lemma_click_in_content_hits_panel(
    l: DiffPanelLayout,
    r: PanelRect,
    old_content_empty: bool,
    section_count: nat,
    side_view: DiffSideView,
    x: u16,
)
    requires
        layout_fits(r, single_panel(old_content_empty, section_count, side_view)),
        layout_view(l) == layout_of(r, old_content_empty, section_count, side_view),
    ensures
        l.old_content_x <= x < l.old_content_end_x ==> panel_at(l, x) == Some(DiffPanel::Old),
        l.new_content_x <= x < l.new_content_end_x ==> panel_at(l, x) == Some(DiffPanel::New),
{
}

/// Hunk starts come in increasing order.
pub proof fn lemma_hunk_starts_increasing(ts: Seq<ChangeType>)
    ensures
        forall|i: int, j: int| 0 <= i < j < hunk_starts(ts).len() ==> hunk_starts(ts)[i] < hunk_starts(ts)[j],
    decreases ts.len(),
{
    if ts.len() > 0 {
        lemma_hunk_starts_increasing(ts.drop_last());
        lemma_hunk_starts_bounded(ts.drop_last());
        let rest = hunk_starts(ts.drop_last());
        let h = hunk_starts(ts);
        assert forall|i: int, j: int| 0 <= i < j < h.len() implies h[i] < h[j] by {
            assert(h[i] == rest[i]);
            if j < rest.len() {
                assert(h[j] == rest[j]);
            } else {
                assert(h[j] == ts.len() - 1);
            }
        }
    }
}

/// In increasing hunk starts, the next one after the `i`-th is the one that follows it,
/// and the previous one before the `(i + 1)`-th is the `i`-th.
proof fn lemma_neighbour_hunks(hs: Seq<usize>, i: int)
    requires
        forall|a: int, b: int| 0 <= a < b < hs.len() ==> hs[a] < hs[b],
        0 <= i,
        i + 1 < hs.len(),
    ensures
        next_hunk_start(hs, hs[i]) == Some(hs[i + 1]),
        prev_hunk_start(hs, hs[i + 1]) == Some(hs[i]),
{
    lemma_next_from(hs, hs[i], 0, i + 1);
    lemma_prev_from(hs, hs[i + 1], hs.len() as int, i);
    assert(hs.skip(0) == hs);
    assert(hs.take(hs.len() as int) == hs);
}

proof fn lemma_next_from(hs: Seq<usize>, off: usize, from: int, target: int)
    requires
        0 <= from <= target < hs.len(),
        hs[target] > off,
        forall|k: int| from <= k < target ==> hs[k] <= off,
    ensures
        next_hunk_start(hs.skip(from), off) == Some(hs[target]),
    decreases target - from,
{
    let t = hs.skip(from);
    assert(t[0] == hs[from]);
    if from < target {
        assert(t.drop_first() == hs.skip(from + 1));
        lemma_next_from(hs, off, from + 1, target);
    }
    if from == 0 {
        assert(hs.skip(0) == hs);
    }
}

proof fn lemma_prev_from(hs: Seq<usize>, off: usize, upto: int, target: int)
    requires
        0 <= target < upto <= hs.len(),
        hs[target] < off,
        forall|k: int| target < k < upto ==> hs[k] >= off,
    ensures
        prev_hunk_start(hs.take(upto), off) == Some(hs[target]),
    decreases upto - target,
{
    let t = hs.take(upto);
    assert(t.last() == hs[upto - 1]);
    if upto - 1 > target {
        assert(t.drop_last() == hs.take(upto - 1));
        lemma_prev_from(hs, off, upto - 1, target);
    }
    if upto == hs.len() {
        assert(hs.take(upto) == hs);
    }
}

/// On the rows of a diff, from the start of a hunk that is not the last, moving to the
/// next hunk and then to the previous one comes back to the same hunk.
pub proof fn lemma_next_then_prev_hunk(lines: Seq<DiffLine>, i: int)
    requires
        lines.len() <= usize::MAX,
        0 <= i,
        i + 1 < hunk_starts(change_types(lines)).len(),
    ensures
        ({
            let hs = hunk_starts(change_types(lines));
            let here = hs[i] as usize;
            next_hunk_start(hs.map_values(|h: int| h as usize), here) matches Some(n)
                && prev_hunk_start(hs.map_values(|h: int| h as usize), n) == Some(here)
        }),
{
    let ts = change_types(lines);
    let hs = hunk_starts(ts);
    lemma_hunk_starts_increasing(ts);
    lemma_hunk_starts_bounded(ts);
    assert(ts.len() == lines.len());
    let us = hs.map_values(|h: int| h as usize);
    assert forall|a: int, b: int| 0 <= a < b < us.len() implies us[a] < us[b] by {
        assert(us[a] == hs[a] as usize);
        assert(us[b] == hs[b] as usize);
    }
    lemma_neighbour_hunks(us, i);
    assert(us[i] == hs[i] as usize);
}

/// Scrolling down `amount` rows then up as many comes back to the same row, unless the
/// bottom stopped the scroll.
pub proof fn lemma_scroll_down_then_up(off: int, amount: int, len: nat)
    requires
        0 <= off,
        0 <= amount,
        off + amount < max_scroll(len),
    ensures
        ({
            let down = if off + amount < max_scroll(len) {
                off + amount
            } else {
                max_scroll(len)
            };
            sat_sub(down, amount) == off
        }),
{
}

} // verus!

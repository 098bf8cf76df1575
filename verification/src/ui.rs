use vstd::prelude::*;

use crate::model::{File, FileChangeStatus};
use crate::pager::side_by_side::PanelRect;
use crate::text::{
    chars_of, find_pat, index_of, matches_at, occurs_at, slice_vec, string_of, trim_start_char, trim_start_char_exec,
};

verus! {

/// How much of the screen the main panel takes.
#[derive(Debug, Clone, Copy, PartialEq, Eq, Structural)]
pub enum ScreenMode {
    Normal,
    Half,
    Full,
}

/// The mode after `m`: normal, half, full, then normal again.
pub open spec fn next_mode(m: ScreenMode) -> ScreenMode {
    match m {
        ScreenMode::Normal => ScreenMode::Half,
        ScreenMode::Half => ScreenMode::Full,
        ScreenMode::Full => ScreenMode::Normal,
    }
}

/// The mode before `m`.
pub open spec fn prev_mode(m: ScreenMode) -> ScreenMode {
    match m {
        ScreenMode::Normal => ScreenMode::Full,
        ScreenMode::Half => ScreenMode::Normal,
        ScreenMode::Full => ScreenMode::Half,
    }
}

/// Going to the previous mode undoes going to the next one and the other way round, and
/// three steps forward come back to the start.
pub proof fn lemma_screen_modes_cycle(m: ScreenMode)
    ensures
        prev_mode(next_mode(m)) == m,
        next_mode(prev_mode(m)) == m,
        next_mode(next_mode(next_mode(m))) == m,
{
}

impl ScreenMode {
    /// The next mode: normal, half, full, then normal again.
    pub fn next(self) -> (m: ScreenMode)
        ensures
            m == next_mode(self),
    {
        match self {
            ScreenMode::Normal => ScreenMode::Half,
            ScreenMode::Half => ScreenMode::Full,
            ScreenMode::Full => ScreenMode::Normal,
        }
    }

    /// The previous mode: normal, full, half, then normal again.
    pub fn prev(self) -> (m: ScreenMode)
        ensures
            m == prev_mode(self),
    {
        match self {
            ScreenMode::Normal => ScreenMode::Full,
            ScreenMode::Half => ScreenMode::Normal,
            ScreenMode::Full => ScreenMode::Half,
        }
    }
}

/// Whether the side panels go above the main panel instead of beside it: in normal
/// mode, on a terminal at most 84 columns wide and more than 45 rows high.
pub fn should_use_portrait(width: u16, height: u16, screen_mode: ScreenMode) -> (b: bool)
    ensures
        b == (screen_mode == ScreenMode::Normal && width <= 84 && height > 45),
{
    screen_mode == ScreenMode::Normal && width <= 84 && height > 45
}

/// Whether the cell at `col`, `row` lies in `r`.
pub fn rect_contains(r: PanelRect, col: u16, row: u16) -> (b: bool)
    requires
        r.x + r.width <= u16::MAX,
        r.y + r.height <= u16::MAX,
    ensures
        b == (r.x <= col < r.x + r.width && r.y <= row < r.y + r.height),
{
    col >= r.x && col < r.x + r.width && row >= r.y && row < r.y + r.height
}

/// The first entry shown of a list whose entry `selected` must be visible in `visible`
/// rows: the top, or far enough down that the selection is the last row shown.
pub open spec fn list_scroll(selected: int, visible: int) -> int {
    if selected >= visible {
        selected - visible + 1
    } else {
        0
    }
}

/// The entry of a side panel's list that a click on row `row` lands on: the panel
/// `panel` shows its list inside a one-cell border, scrolled so that entry `selected` is
/// visible; none when the row is past the list's end.
pub open spec fn clicked_entry(panel: PanelRect, row: int, selected: int, list_len: int) -> Option<int> {
    let inner = if row > panel.y + 1 {
        row - (panel.y + 1)
    } else {
        0
    };
    let visible = if panel.height >= 2 {
        panel.height - 2
    } else {
        0
    };
    let idx = list_scroll(selected, visible) + inner;
    if idx < list_len {
        Some(idx)
    } else {
        None
    }
}

/// The entry of a side panel's list that a click on row `row` lands on (see
/// `clicked_entry`).
pub fn clicked_list_index(panel: PanelRect, row: u16, selected: usize, list_len: usize) -> (r: Option<usize>)
    requires
        panel.y < u16::MAX,
        selected + u16::MAX <= usize::MAX,
    ensures
        r == (match clicked_entry(panel, row as int, selected as int, list_len as int) {
            Some(i) => Some(i as usize),
            None => None,
        }),
{
    let inner = row.saturating_sub(panel.y + 1) as usize;
    let visible = panel.height.saturating_sub(2) as usize;
    let scroll = if selected >= visible {
        selected - visible + 1
    } else {
        0
    };
    let idx = scroll + inner;
    if idx < list_len {
        Some(idx)
    } else {
        None
    }
}

/// The kind of a message popup.
#[derive(Debug, Clone, Copy, PartialEq, Eq, Structural)]
pub enum MessageKind {
    Error,
    Info,
}

/// Which field of the commit message popup has the focus.
#[derive(Debug, Clone, Copy, PartialEq, Eq, Structural)]
pub enum CommitInputFocus {
    Summary,
    Body,
}

impl CommitInputFocus {
    /// The other field.
    pub fn toggled(self) -> (f: CommitInputFocus)
        ensures
            f != self,
    {
        match self {
            CommitInputFocus::Summary => CommitInputFocus::Body,
            CommitInputFocus::Body => CommitInputFocus::Summary,
        }
    }
}

/// An entry of a checklist popup.
#[derive(Debug, Clone)]
pub struct ChecklistItem {
    pub label: String,
    pub checked: bool,
}

/// A section of the help popup.
pub struct HelpSection {
    pub title: String,
    pub entries: Vec<HelpEntry>,
}

/// A key binding shown in the help popup.
pub struct HelpEntry {
    pub key: String,
    pub description: String,
}

/// An item of a searchable list picker.
#[derive(Debug, Clone)]
pub struct ListPickerItem {
    /// The value handed to the picker's action (a ref name, a hash, a theme id...).
    pub value: String,
    /// The label shown.
    pub label: String,
    /// The section heading it is listed under; empty for a flat list.
    pub category: String,
}

/// The summary and body of a commit message: the summary is the first line; the body is
/// everything after the first blank-line separator (`\n\n`), without the further newlines
/// that begin it, and empty when there is no such separator.
pub open spec fn commit_message_parts(msg: Seq<char>) -> (Seq<char>, Seq<char>) {
    let i = index_of(msg, '\n');
    let summary = if i < 0 {
        msg
    } else {
        msg.take(i)
    };
    let j = find_pat(msg, "\n\n"@);
    let body = if j < 0 {
        seq![]
    } else {
        trim_start_char(msg.skip(j + 2), '\n')
    };
    (summary, body)
}

/// Splits a commit message into its summary and its body (see `commit_message_parts`).
pub fn split_commit_message(msg: &str) -> (r: (String, String))
    ensures
        (r.0@, r.1@) == commit_message_parts(msg@),
{
    let m = chars_of(msg);
    let mut i: usize = 0;
    while i < m.len() && m[i] != '\n'
        invariant
            i <= m.len(),
            forall|k: int| 0 <= k < i ==> m@[k] != '\n',
        decreases m.len() - i,
    {
        i = i + 1;
    }
    proof {
        crate::text::lemma_index_of(m@, '\n');
        if i < m.len() {
            crate::text::lemma_index_of_at(m@, '\n', i as int);
        } else {
            crate::text::lemma_index_of_none(m@, '\n');
        }
    }
    let summary = slice_vec(&m, 0, i);
    proof {
        assert(m@.subrange(0, i as int) == m@.take(i as int));
        assert(m@.take(m@.len() as int) == m@);
    }
    let sep = chars_of("\n\n");
    proof {
        reveal_strlit("\n\n");
        assert(sep@.len() == 2);
    }
    let mut j: usize = 0;
    let mut found = false;
    while j < m.len() && !found
        invariant
            j <= m.len(),
            sep@ == "\n\n"@,
            sep@.len() == 2,
            found ==> occurs_at(m@, sep@, j as int),
            forall|k: int| 0 <= k < j ==> !occurs_at(m@, sep@, k),
        decreases m.len() - j, if found { 0int } else { 1int },
    {
        if matches_at(&m, &sep, j) {
            found = true;
        } else {
            j = j + 1;
        }
    }
    proof {
        crate::text::lemma_find_pat(m@, sep@);
        let f = find_pat(m@, sep@);
        if found {
            if f < 0 || f > j {
            } else if f < j {
                assert(!occurs_at(m@, sep@, f));
            }
            assert(f == j);
        } else {
            assert(f < 0);
        }
    }
    if !found {
        return (string_of(&summary), String::new());
    }
    let rest = slice_vec(&m, j + 2, m.len());
    let body = trim_start_char_exec(&rest, '\n');
    proof {
        assert(m@.subrange(j + 2, m@.len() as int) == m@.skip(j + 2));
    }
    (string_of(&summary), string_of(&body))
}

/// How a file's status is colored in the file list.
#[derive(Debug, Clone, Copy, PartialEq, Eq, Structural)]
pub enum FileStatusStyle {
    Conflicted,
    Staged,
    Untracked,
    Unstaged,
}

/// The style of a file's status: conflicted when it has merge conflicts, else staged when
/// all its changes are staged, else untracked when git does not track it, else unstaged.
pub fn file_status_style(f: &File) -> (st: FileStatusStyle)
    ensures
        f.has_merge_conflicts ==> st == FileStatusStyle::Conflicted,
        !f.has_merge_conflicts && f.has_staged_changes && !f.has_unstaged_changes ==> st == FileStatusStyle::Staged,
        !f.has_merge_conflicts && !(f.has_staged_changes && !f.has_unstaged_changes) && !f.git_tracked
            ==> st == FileStatusStyle::Untracked,
        !f.has_merge_conflicts && !(f.has_staged_changes && !f.has_unstaged_changes) && f.git_tracked
            ==> st == FileStatusStyle::Unstaged,
{
    if f.has_merge_conflicts {
        FileStatusStyle::Conflicted
    } else if f.has_staged_changes && !f.has_unstaged_changes {
        FileStatusStyle::Staged
    } else if !f.git_tracked {
        FileStatusStyle::Untracked
    } else {
        FileStatusStyle::Unstaged
    }
}

/// The two-letter status codes the file list shows as they are.
pub open spec fn known_status(s: Seq<char>) -> bool {
    ||| s == "??"@
    ||| s == "M "@
    ||| s == " M"@
    ||| s == "MM"@
    ||| s == "A "@
    ||| s == "AM"@
    ||| s == "D "@
    ||| s == " D"@
    ||| s == "R "@
    ||| s == "RM"@
    ||| s == "C "@
    ||| s == "CM"@
    ||| s == "UU"@
    ||| s == "AA"@
    ||| s == "DD"@
    ||| s == "AU"@
    ||| s == "UA"@
    ||| s == "DU"@
    ||| s == "UD"@
}

/// Whether two strings are equal.
fn same(a: &str, b: &str) -> (r: bool)
    ensures
        r == (a@ == b@),
{
    crate::text::chars_eq(&chars_of(a), &chars_of(b))
}

/// The status code shown before a file: its short status when it is one of the known
/// codes, else two spaces.
pub fn file_status_icon(short_status: &str) -> (r: String)
    ensures
        known_status(short_status@) ==> r@ == short_status@,
        !known_status(short_status@) ==> r@ == "  "@,
{
    let s = short_status;
    if same(s, "??") || same(s, "M ") || same(s, " M") || same(s, "MM") || same(s, "A ") || same(s, "AM")
        || same(s, "D ") || same(s, " D") || same(s, "R ") || same(s, "RM") || same(s, "C ") || same(s, "CM")
        || same(s, "UU") || same(s, "AA") || same(s, "DD") || same(s, "AU") || same(s, "UA") || same(s, "DU")
        || same(s, "UD") {
        crate::text::owned(s)
    } else {
        crate::text::owned("  ")
    }
}

/// The status code shown before a file of a commit.
pub open spec fn commit_status_code(st: FileChangeStatus) -> Seq<char> {
    match st {
        FileChangeStatus::Added => "A "@,
        FileChangeStatus::Deleted => "D "@,
        FileChangeStatus::Modified => "M "@,
        FileChangeStatus::Renamed => "R "@,
        FileChangeStatus::Copied => "C "@,
        FileChangeStatus::Unmerged => "U "@,
    }
}

/// The status code shown before a file of a commit: its letter and a space.
pub fn commit_file_status_icon(st: FileChangeStatus) -> (r: String)
    ensures
        r@ == commit_status_code(st),
{
    match st {
        FileChangeStatus::Added => crate::text::owned("A "),
        FileChangeStatus::Deleted => crate::text::owned("D "),
        FileChangeStatus::Modified => crate::text::owned("M "),
        FileChangeStatus::Renamed => crate::text::owned("R "),
        FileChangeStatus::Copied => crate::text::owned("C "),
        FileChangeStatus::Unmerged => crate::text::owned("U "),
    }
}

} // verus!

use vstd::prelude::*;

use crate::nav::{bound, is_bound, panel_digit, panel_digit_exec, Key, KeyCode, UniversalKeys};
use crate::pager::side_by_side::DiffSideView;

verus! {

/// What a key does while the diff panel has the focus.
#[derive(Debug, Clone, Copy, PartialEq, Eq, Structural)]
pub enum DiffPanelAction {
    /// The search prompt closes.
    SearchDismiss,
    /// The search prompt closes and the first match, if any, is shown.
    SearchConfirm,
    /// The key is typed into the search prompt and the matches are found again.
    SearchInput,
    /// The search prompt opens.
    Search,
    /// The file under the selection opens in the editor.
    EditSelection,
    /// The selected text goes to the clipboard.
    CopySelection,
    /// The selection is dropped and nothing else happens.
    DismissSelection,
    /// The focus goes back to the side panels.
    Unfocus,
    ClearSearch,
    NextMatch,
    PrevMatch,
    Quit,
    ScrollDown(usize),
    ScrollUp(usize),
    ScrollLeft(usize),
    ScrollRight(usize),
    NextHunk,
    PrevHunk,
    /// The sides shown become these.
    SideView(DiffSideView),
    ToggleWrap,
    Top,
    Bottom,
    /// The focus goes to the side panel of this number (1 to 5).
    JumpToWindow(u8),
    NextScreenMode,
    PrevScreenMode,
    ToggleCommandLog,
    Help,
    Ignore,
}

/// What the focused diff panel's keys depend on.
#[derive(Debug, Clone, Copy, PartialEq, Eq, Structural)]
pub struct DiffPanelModes {
    /// The diff's search prompt is being typed into.
    pub search_input: bool,
    /// A mouse selection is shown.
    pub has_selection: bool,
    /// The selection is a single click, not a dragged range.
    pub selection_is_click: bool,
    /// The diffed file exists in the working tree (it can be opened).
    pub file_on_disk: bool,
    /// Results of a search in the diff are shown.
    pub search_shown: bool,
    /// The sides shown.
    pub side_view: DiffSideView,
}

/// The sides shown after `]` (`new_side`) or `[`: that side alone, or both again when it
/// was already alone.
pub open spec fn side_view_after(v: DiffSideView, new_side: bool) -> DiffSideView {
    if new_side {
        if v == DiffSideView::NewOnly {
            DiffSideView::Both
        } else {
            DiffSideView::NewOnly
        }
    } else {
        if v == DiffSideView::OldOnly {
            DiffSideView::Both
        } else {
            DiffSideView::OldOnly
        }
    }
}

/// The sides shown after `]` (`new_side`) or `[` (see `side_view_after`).
pub fn toggled_side_view(v: DiffSideView, new_side: bool) -> (r: DiffSideView)
    ensures
        r == side_view_after(v, new_side),
{
    if new_side {
        if v == DiffSideView::NewOnly {
            DiffSideView::Both
        } else {
            DiffSideView::NewOnly
        }
    } else {
        if v == DiffSideView::OldOnly {
            DiffSideView::Both
        } else {
            DiffSideView::OldOnly
        }
    }
}

/// What `key` does in the focused diff panel, given the bindings `kb` and the modes `m`:
/// the search prompt takes every key while open; a shown selection takes `e` (when the
/// file can be opened), `y` (for a dragged range) and Esc, and any other key drops it
/// (and does nothing more after a single click); then the bindings and the panel's own
/// keys are tried in a fixed order, the first that matches wins.  Outside the search
/// prompt, a key pressed while a selection is shown always drops the selection.
pub open spec fn diff_panel_key_action_of(kb: UniversalKeys, key: Key, m: DiffPanelModes) -> DiffPanelAction {
    let c = key.code;
    if m.search_input {
        if c == KeyCode::Esc {
            DiffPanelAction::SearchDismiss
        } else if c == KeyCode::Enter {
            DiffPanelAction::SearchConfirm
        } else {
            DiffPanelAction::SearchInput
        }
    } else if m.has_selection && c == KeyCode::Char('e') && m.file_on_disk {
        DiffPanelAction::EditSelection
    } else if m.has_selection && c == KeyCode::Char('y') && !m.selection_is_click {
        DiffPanelAction::CopySelection
    } else if m.has_selection && (c == KeyCode::Esc || m.selection_is_click) {
        DiffPanelAction::DismissSelection
    } else if bound(kb.next_screen_mode, key) {
        DiffPanelAction::NextScreenMode
    } else if bound(kb.prev_screen_mode, key) {
        DiffPanelAction::PrevScreenMode
    } else if bound(kb.start_search, key) {
        DiffPanelAction::Search
    } else if m.search_shown && bound(kb.next_match, key) {
        DiffPanelAction::NextMatch
    } else if m.search_shown && bound(kb.prev_match, key) {
        DiffPanelAction::PrevMatch
    } else if c == KeyCode::Char(';') {
        DiffPanelAction::ToggleCommandLog
    } else if c == KeyCode::Char('?') {
        DiffPanelAction::Help
    } else if panel_digit(c) is Some {
        DiffPanelAction::JumpToWindow(panel_digit(c)->0)
    } else if bound(kb.scroll_left, key) {
        DiffPanelAction::ScrollLeft(4)
    } else if bound(kb.scroll_right, key) {
        DiffPanelAction::ScrollRight(4)
    } else if c == KeyCode::Esc {
        if m.search_shown {
            DiffPanelAction::ClearSearch
        } else {
            DiffPanelAction::Unfocus
        }
    } else if c == KeyCode::Char('q') {
        DiffPanelAction::Quit
    } else if c == KeyCode::Char('j') || c == KeyCode::Down {
        DiffPanelAction::ScrollDown(1)
    } else if c == KeyCode::Char('k') || c == KeyCode::Up {
        DiffPanelAction::ScrollUp(1)
    } else if c == KeyCode::Char('h') || c == KeyCode::Left {
        DiffPanelAction::ScrollLeft(4)
    } else if c == KeyCode::Char('l') || c == KeyCode::Right {
        DiffPanelAction::ScrollRight(4)
    } else if c == KeyCode::Char('}') {
        DiffPanelAction::NextHunk
    } else if c == KeyCode::Char('{') {
        DiffPanelAction::PrevHunk
    } else if c == KeyCode::Char(']') {
        DiffPanelAction::SideView(side_view_after(m.side_view, true))
    } else if c == KeyCode::Char('[') {
        DiffPanelAction::SideView(side_view_after(m.side_view, false))
    } else if c == KeyCode::Char('z') {
        DiffPanelAction::ToggleWrap
    } else if c == KeyCode::PageDown {
        DiffPanelAction::ScrollDown(20)
    } else if c == KeyCode::PageUp {
        DiffPanelAction::ScrollUp(20)
    } else if c == KeyCode::Char('g') {
        DiffPanelAction::Top
    } else if c == KeyCode::Char('G') {
        DiffPanelAction::Bottom
    } else {
        DiffPanelAction::Ignore
    }
}

/// What `key` does in the focused diff panel (see `diff_panel_key_action_of`).
pub fn diff_panel_key_action(kb: &UniversalKeys, key: Key, m: &DiffPanelModes) -> (a: DiffPanelAction)
    ensures
        a == diff_panel_key_action_of(*kb, key, *m),
{
    let c = key.code;
    let digit = panel_digit_exec(c);
    if m.search_input {
        if c == KeyCode::Esc {
            DiffPanelAction::SearchDismiss
        } else if c == KeyCode::Enter {
            DiffPanelAction::SearchConfirm
        } else {
            DiffPanelAction::SearchInput
        }
    } else if m.has_selection && c == KeyCode::Char('e') && m.file_on_disk {
        DiffPanelAction::EditSelection
    } else if m.has_selection && c == KeyCode::Char('y') && !m.selection_is_click {
        DiffPanelAction::CopySelection
    } else if m.has_selection && (c == KeyCode::Esc || m.selection_is_click) {
        DiffPanelAction::DismissSelection
    } else if is_bound(kb.next_screen_mode, key) {
        DiffPanelAction::NextScreenMode
    } else if is_bound(kb.prev_screen_mode, key) {
        DiffPanelAction::PrevScreenMode
    } else if is_bound(kb.start_search, key) {
        DiffPanelAction::Search
    } else if m.search_shown && is_bound(kb.next_match, key) {
        DiffPanelAction::NextMatch
    } else if m.search_shown && is_bound(kb.prev_match, key) {
        DiffPanelAction::PrevMatch
    } else if c == KeyCode::Char(';') {
        DiffPanelAction::ToggleCommandLog
    } else if c == KeyCode::Char('?') {
        DiffPanelAction::Help
    } else if digit.is_some() {
        DiffPanelAction::JumpToWindow(digit.unwrap())
    } else if is_bound(kb.scroll_left, key) {
        DiffPanelAction::ScrollLeft(4)
    } else if is_bound(kb.scroll_right, key) {
        DiffPanelAction::ScrollRight(4)
    } else if c == KeyCode::Esc {
        if m.search_shown {
            DiffPanelAction::ClearSearch
        } else {
            DiffPanelAction::Unfocus
        }
    } else if c == KeyCode::Char('q') {
        DiffPanelAction::Quit
    } else if c == KeyCode::Char('j') || c == KeyCode::Down {
        DiffPanelAction::ScrollDown(1)
    } else if c == KeyCode::Char('k') || c == KeyCode::Up {
        DiffPanelAction::ScrollUp(1)
    } else if c == KeyCode::Char('h') || c == KeyCode::Left {
        DiffPanelAction::ScrollLeft(4)
    } else if c == KeyCode::Char('l') || c == KeyCode::Right {
        DiffPanelAction::ScrollRight(4)
    } else if c == KeyCode::Char('}') {
        DiffPanelAction::NextHunk
    } else if c == KeyCode::Char('{') {
        DiffPanelAction::PrevHunk
    } else if c == KeyCode::Char(']') {
        DiffPanelAction::SideView(toggled_side_view(m.side_view, true))
    } else if c == KeyCode::Char('[') {
        DiffPanelAction::SideView(toggled_side_view(m.side_view, false))
    } else if c == KeyCode::Char('z') {
        DiffPanelAction::ToggleWrap
    } else if c == KeyCode::PageDown {
        DiffPanelAction::ScrollDown(20)
    } else if c == KeyCode::PageUp {
        DiffPanelAction::ScrollUp(20)
    } else if c == KeyCode::Char('g') {
        DiffPanelAction::Top
    } else if c == KeyCode::Char('G') {
        DiffPanelAction::Bottom
    } else {
        DiffPanelAction::Ignore
    }
}

} // verus!

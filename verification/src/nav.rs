use vstd::prelude::*;

use crate::diff_keys::{diff_panel_key_action, diff_panel_key_action_of, DiffPanelAction, DiffPanelModes};
use crate::main_mouse::PanelClick;
use crate::ui::clicked_entry;

verus! {

// ---------------------------------------------------------------------------
// Keys and the universal key bindings
// ---------------------------------------------------------------------------

/// A key of the keyboard.
#[derive(Debug, Clone, Copy, PartialEq, Eq, Structural)]
pub enum KeyCode {
    Char(char),
    Enter,
    Esc,
    Tab,
    BackTab,
    Backspace,
    Up,
    Down,
    Left,
    Right,
    PageUp,
    PageDown,
    Home,
    End,
    Other,
}

/// A key press: the key and the modifiers held.
#[derive(Debug, Clone, Copy, PartialEq, Eq, Structural)]
pub struct Key {
    pub code: KeyCode,
    pub ctrl: bool,
    pub alt: bool,
    pub shift: bool,
}

/// The universal key bindings, each as the key it is bound to (none when the binding
/// names no key).
#[derive(Debug, Clone, Copy)]
pub struct UniversalKeys {
    pub quit: Option<Key>,
    pub quit_alt1: Option<Key>,
    pub toggle_panel: Option<Key>,
    pub prev_block: Option<Key>,
    pub prev_block_alt: Option<Key>,
    pub next_block: Option<Key>,
    pub next_block_alt: Option<Key>,
    pub prev_item: Option<Key>,
    pub prev_item_alt: Option<Key>,
    pub next_item: Option<Key>,
    pub next_item_alt: Option<Key>,
    pub goto_top: Option<Key>,
    pub goto_bottom: Option<Key>,
    pub scroll_down_main_alt1: Option<Key>,
    pub scroll_up_main_alt1: Option<Key>,
    pub scroll_left: Option<Key>,
    pub scroll_right: Option<Key>,
    pub refresh: Option<Key>,
    pub create_rebase_options_menu: Option<Key>,
    pub push_files: Option<Key>,
    pub pull_files: Option<Key>,
    pub next_screen_mode: Option<Key>,
    pub prev_screen_mode: Option<Key>,
    pub undo: Option<Key>,
    pub redo: Option<Key>,
    pub create_patch_options_menu: Option<Key>,
    pub start_search: Option<Key>,
    pub next_match: Option<Key>,
    pub prev_match: Option<Key>,
}

/// `key` is the key of the binding `b`.
pub open spec fn bound(b: Option<Key>, key: Key) -> bool {
    b == Some(key)
}

pub(crate) fn is_bound(b: Option<Key>, key: Key) -> (r: bool)
    ensures
        r == bound(b, key),
{
    match b {
        Some(k) => k == key,
        None => false,
    }
}

/// What a key press asks for in the side panels.
#[derive(Debug, Clone, Copy, PartialEq, Eq, Structural)]
pub enum KeyAction {
    Quit,
    /// Jump to the panel of this number (1 to 5).
    JumpToWindow(u8),
    NextWindow,
    PrevWindow,
    PrevItem,
    NextItem,
    GotoTop,
    GotoBottom,
    /// Scroll the diff down by this many rows.
    ScrollMainDown(usize),
    /// Scroll the diff up by this many rows.
    ScrollMainUp(usize),
    ScrollLeft,
    ScrollRight,
    PrevHunk,
    NextHunk,
    Refresh,
    RebaseOptions,
    Push,
    Pull,
    NextScreenMode,
    PrevScreenMode,
    CompareMode,
    ToggleCommandLog,
    Undo,
    Redo,
    PatchOptions,
    Help,
    StartSearch,
    ClearSearch,
    NextMatch,
    PrevMatch,
    RebasePicker,
    /// Left to the active panel's own bindings.
    PanelKey,
}

/// The digit of a panel-jump key, `1` to `5`.
pub open spec fn panel_digit(c: KeyCode) -> Option<u8> {
    match c {
        KeyCode::Char(ch) => if '1' <= ch && ch <= '5' {
            Some((ch as u32 - '0' as u32) as u8)
        } else {
            None
        },
        _ => None,
    }
}

/// The digit of a panel-jump key (see `panel_digit`).
pub(crate) fn panel_digit_exec(c: KeyCode) -> (r: Option<u8>)
    ensures
        r == panel_digit(c),
{
    match c {
        KeyCode::Char(ch) => if '1' <= ch && ch <= '5' {
            Some(((ch as u32) - ('0' as u32)) as u8)
        } else {
            None
        },
        _ => None,
    }
}

/// What the screen is doing when a key arrives: which layer takes keys first, and the
/// states that some side-panel bindings depend on.
#[derive(Debug, Clone, Copy)]
pub struct KeyModes {
    /// A popup is open.
    pub popup_open: bool,
    /// The search prompt is being typed into.
    pub search_input: bool,
    /// The interactive rebase view is shown.
    pub rebase_mode: bool,
    /// The compare view is shown.
    pub diff_mode: bool,
    /// The diff panel has the focus.
    pub diff_focused: bool,
    /// Results of a search are shown (the query is not empty).
    pub search_shown: bool,
    /// A rebase, merge or cherry-pick is in progress.
    pub operation_in_progress: bool,
    /// The patch menu can be opened: the commits list is active or a patch is being built.
    pub patch_menu_allowed: bool,
    /// What the focused diff panel's keys depend on.
    pub diff_panel: DiffPanelModes,
}

/// What `key` asks for in the side panels, given the bindings `kb` and the modes `m`: the
/// bindings are tried in a fixed order, the first that matches wins; the rebase options
/// and the patch menu only answer when their state allows it, else the key goes on down
/// the list.
pub open spec fn key_action_of(kb: UniversalKeys, key: Key, m: KeyModes) -> KeyAction {
    let searching = m.search_shown;
    if bound(kb.quit, key) || bound(kb.quit_alt1, key) {
        KeyAction::Quit
    } else if panel_digit(key.code) is Some {
        KeyAction::JumpToWindow(panel_digit(key.code)->0)
    } else if bound(kb.toggle_panel, key) {
        KeyAction::NextWindow
    } else if bound(kb.prev_block, key) || bound(kb.prev_block_alt, key) {
        KeyAction::PrevWindow
    } else if bound(kb.next_block, key) || bound(kb.next_block_alt, key) {
        KeyAction::NextWindow
    } else if bound(kb.prev_item, key) || bound(kb.prev_item_alt, key) {
        KeyAction::PrevItem
    } else if bound(kb.next_item, key) || bound(kb.next_item_alt, key) {
        KeyAction::NextItem
    } else if bound(kb.goto_top, key) {
        KeyAction::GotoTop
    } else if bound(kb.goto_bottom, key) {
        KeyAction::GotoBottom
    } else if bound(kb.scroll_down_main_alt1, key) {
        KeyAction::ScrollMainDown(1)
    } else if bound(kb.scroll_up_main_alt1, key) {
        KeyAction::ScrollMainUp(1)
    } else if key.code == KeyCode::PageDown {
        KeyAction::ScrollMainDown(20)
    } else if key.code == KeyCode::PageUp {
        KeyAction::ScrollMainUp(20)
    } else if bound(kb.scroll_left, key) {
        KeyAction::ScrollLeft
    } else if bound(kb.scroll_right, key) {
        KeyAction::ScrollRight
    } else if key.code == KeyCode::Char('{') {
        KeyAction::PrevHunk
    } else if key.code == KeyCode::Char('}') {
        KeyAction::NextHunk
    } else if bound(kb.refresh, key) {
        KeyAction::Refresh
    } else if m.operation_in_progress && bound(kb.create_rebase_options_menu, key) {
        KeyAction::RebaseOptions
    } else if bound(kb.push_files, key) {
        KeyAction::Push
    } else if bound(kb.pull_files, key) {
        KeyAction::Pull
    } else if bound(kb.next_screen_mode, key) {
        KeyAction::NextScreenMode
    } else if bound(kb.prev_screen_mode, key) {
        KeyAction::PrevScreenMode
    } else if key.code == KeyCode::Char('W') {
        KeyAction::CompareMode
    } else if key.code == KeyCode::Char(';') {
        KeyAction::ToggleCommandLog
    } else if bound(kb.undo, key) {
        KeyAction::Undo
    } else if bound(kb.redo, key) {
        KeyAction::Redo
    } else if m.patch_menu_allowed && bound(kb.create_patch_options_menu, key) {
        KeyAction::PatchOptions
    } else if key.code == KeyCode::Char('?') {
        KeyAction::Help
    } else if bound(kb.start_search, key) {
        KeyAction::StartSearch
    } else if searching && key.code == KeyCode::Esc {
        KeyAction::ClearSearch
    } else if searching && bound(kb.next_match, key) {
        KeyAction::NextMatch
    } else if searching && bound(kb.prev_match, key) {
        KeyAction::PrevMatch
    } else if key.code == KeyCode::Char('I') {
        KeyAction::RebasePicker
    } else {
        KeyAction::PanelKey
    }
}

/// What `key` asks for in the side panels (see `key_action_of`).
pub fn key_action(kb: &UniversalKeys, key: Key, m: &KeyModes) -> (a: KeyAction)
    ensures
        a == key_action_of(*kb, key, *m),
{
    let searching = m.search_shown;
    if is_bound(kb.quit, key) || is_bound(kb.quit_alt1, key) {
        return KeyAction::Quit;
    }
    match key.code {
        KeyCode::Char(ch) => {
            if '1' <= ch && ch <= '5' {
                let d = ((ch as u32) - ('0' as u32)) as u8;
                return KeyAction::JumpToWindow(d);
            }
        },
        _ => {},
    }
    if is_bound(kb.toggle_panel, key) {
        KeyAction::NextWindow
    } else if is_bound(kb.prev_block, key) || is_bound(kb.prev_block_alt, key) {
        KeyAction::PrevWindow
    } else if is_bound(kb.next_block, key) || is_bound(kb.next_block_alt, key) {
        KeyAction::NextWindow
    } else if is_bound(kb.prev_item, key) || is_bound(kb.prev_item_alt, key) {
        KeyAction::PrevItem
    } else if is_bound(kb.next_item, key) || is_bound(kb.next_item_alt, key) {
        KeyAction::NextItem
    } else if is_bound(kb.goto_top, key) {
        KeyAction::GotoTop
    } else if is_bound(kb.goto_bottom, key) {
        KeyAction::GotoBottom
    } else if is_bound(kb.scroll_down_main_alt1, key) {
        KeyAction::ScrollMainDown(1)
    } else if is_bound(kb.scroll_up_main_alt1, key) {
        KeyAction::ScrollMainUp(1)
    } else if key.code == KeyCode::PageDown {
        KeyAction::ScrollMainDown(20)
    } else if key.code == KeyCode::PageUp {
        KeyAction::ScrollMainUp(20)
    } else if is_bound(kb.scroll_left, key) {
        KeyAction::ScrollLeft
    } else if is_bound(kb.scroll_right, key) {
        KeyAction::ScrollRight
    } else if key.code == KeyCode::Char('{') {
        KeyAction::PrevHunk
    } else if key.code == KeyCode::Char('}') {
        KeyAction::NextHunk
    } else if is_bound(kb.refresh, key) {
        KeyAction::Refresh
    } else if m.operation_in_progress && is_bound(kb.create_rebase_options_menu, key) {
        KeyAction::RebaseOptions
    } else if is_bound(kb.push_files, key) {
        KeyAction::Push
    } else if is_bound(kb.pull_files, key) {
        KeyAction::Pull
    } else if is_bound(kb.next_screen_mode, key) {
        KeyAction::NextScreenMode
    } else if is_bound(kb.prev_screen_mode, key) {
        KeyAction::PrevScreenMode
    } else if key.code == KeyCode::Char('W') {
        KeyAction::CompareMode
    } else if key.code == KeyCode::Char(';') {
        KeyAction::ToggleCommandLog
    } else if is_bound(kb.undo, key) {
        KeyAction::Undo
    } else if is_bound(kb.redo, key) {
        KeyAction::Redo
    } else if m.patch_menu_allowed && is_bound(kb.create_patch_options_menu, key) {
        KeyAction::PatchOptions
    } else if key.code == KeyCode::Char('?') {
        KeyAction::Help
    } else if is_bound(kb.start_search, key) {
        KeyAction::StartSearch
    } else if searching && key.code == KeyCode::Esc {
        KeyAction::ClearSearch
    } else if searching && is_bound(kb.next_match, key) {
        KeyAction::NextMatch
    } else if searching && is_bound(kb.prev_match, key) {
        KeyAction::PrevMatch
    } else if key.code == KeyCode::Char('I') {
        KeyAction::RebasePicker
    } else {
        KeyAction::PanelKey
    }
}

/// Which layer a key press goes to.
#[derive(Debug, Clone, Copy, PartialEq, Eq, Structural)]
pub enum KeyRoute {
    Popup,
    SearchInput,
    RebaseMode,
    DiffMode,
    /// The focused diff panel, with what the key does there.
    DiffPanel(DiffPanelAction),
    Side(KeyAction),
}

/// The layer `key` goes to: an open popup first, then the search prompt, the rebase view,
/// the compare view and the focused diff panel (which decides what the key does there);
/// else the side panels decide.
pub open spec fn key_route_of(kb: UniversalKeys, key: Key, m: KeyModes) -> KeyRoute {
    if m.popup_open {
        KeyRoute::Popup
    } else if m.search_input {
        KeyRoute::SearchInput
    } else if m.rebase_mode {
        KeyRoute::RebaseMode
    } else if m.diff_mode {
        KeyRoute::DiffMode
    } else if m.diff_focused {
        KeyRoute::DiffPanel(diff_panel_key_action_of(kb, key, m.diff_panel))
    } else {
        KeyRoute::Side(key_action_of(kb, key, m))
    }
}

/// The layer `key` goes to (see `key_route_of`).
pub fn route_key(kb: &UniversalKeys, key: Key, m: &KeyModes) -> (r: KeyRoute)
    ensures
        r == key_route_of(*kb, key, *m),
{
    if m.popup_open {
        KeyRoute::Popup
    } else if m.search_input {
        KeyRoute::SearchInput
    } else if m.rebase_mode {
        KeyRoute::RebaseMode
    } else if m.diff_mode {
        KeyRoute::DiffMode
    } else if m.diff_focused {
        KeyRoute::DiffPanel(diff_panel_key_action(kb, key, &m.diff_panel))
    } else {
        KeyRoute::Side(key_action(kb, key, m))
    }
}

// ---------------------------------------------------------------------------
// Panels and the active list
// ---------------------------------------------------------------------------

/// A list shown in the side panels.
#[derive(Debug, Clone, Copy, PartialEq, Eq, Structural)]
pub enum ContextId {
    Status,
    Files,
    Worktrees,
    Submodules,
    Branches,
    Remotes,
    Tags,
    RemoteBranches,
    BranchCommits,
    BranchCommitFiles,
    Commits,
    Reflog,
    CommitFiles,
    Stash,
    StashFiles,
}

/// The panel (numbered 1 to 5: status, files, branches, commits, stash) that shows
/// list `c`, sub-lists included.
pub open spec fn window_of(c: ContextId) -> nat {
    match c {
        ContextId::Status => 1,
        ContextId::Files | ContextId::Worktrees | ContextId::Submodules => 2,
        ContextId::Branches | ContextId::Remotes | ContextId::Tags | ContextId::RemoteBranches
        | ContextId::BranchCommits | ContextId::BranchCommitFiles => 3,
        ContextId::Commits | ContextId::Reflog | ContextId::CommitFiles => 4,
        ContextId::Stash | ContextId::StashFiles => 5,
    }
}

/// Number of tabs of panel `w`.
pub open spec fn tab_count(w: nat) -> nat {
    if w == 2 || w == 3 {
        3
    } else if w == 4 {
        2
    } else {
        1
    }
}

/// The list of tab `t` of panel `w`.
pub open spec fn tab_context(w: nat, t: nat) -> ContextId {
    if w == 2 {
        if t == 0 {
            ContextId::Files
        } else if t == 1 {
            ContextId::Worktrees
        } else {
            ContextId::Submodules
        }
    } else if w == 3 {
        if t == 0 {
            ContextId::Branches
        } else if t == 1 {
            ContextId::Remotes
        } else {
            ContextId::Tags
        }
    } else if w == 4 {
        if t == 0 {
            ContextId::Commits
        } else {
            ContextId::Reflog
        }
    } else if w == 5 {
        ContextId::Stash
    } else {
        ContextId::Status
    }
}

/// The tab that list `c` is, in its panel (a sub-list counts as its parent's tab).
pub open spec fn tab_of(c: ContextId) -> nat {
    match c {
        ContextId::Worktrees | ContextId::Remotes | ContextId::RemoteBranches | ContextId::Reflog => 1,
        ContextId::Submodules | ContextId::Tags => 2,
        _ => 0,
    }
}

/// The list that leaving the sub-lists of `c` comes back to: the commits from a commit's
/// files, the stash from a stash entry's files, the branches from a branch's commits or
/// their files, the remotes from a remote's branches; any other list stays.
pub open spec fn out_of_sub_lists(c: ContextId) -> ContextId {
    match c {
        ContextId::CommitFiles => ContextId::Commits,
        ContextId::StashFiles => ContextId::Stash,
        ContextId::BranchCommitFiles | ContextId::BranchCommits => ContextId::Branches,
        ContextId::RemoteBranches => ContextId::Remotes,
        _ => c,
    }
}

/// The list a jump to panel `w` from list `c` gives back when `c` is one of that panel's
/// sub-lists: one level up (a branch commit's files go back to the branch's commits).
pub open spec fn jump_back(c: ContextId, w: nat) -> Option<ContextId> {
    if c == ContextId::CommitFiles && w == 4 {
        Some(ContextId::Commits)
    } else if c == ContextId::StashFiles && w == 5 {
        Some(ContextId::Stash)
    } else if c == ContextId::BranchCommitFiles && w == 3 {
        Some(ContextId::BranchCommits)
    } else if c == ContextId::BranchCommits && w == 3 {
        Some(ContextId::Branches)
    } else if c == ContextId::RemoteBranches && w == 3 {
        Some(ContextId::Remotes)
    } else {
        None
    }
}

/// The list shown after jumping to panel `w` (1 to 5) from list `c`, panel `p` showing
/// tab `tabs[p - 1]`: a sub-list of `w` goes one level up; the active panel moves to its
/// next tab, round; another panel shows the tab it showed last.
pub open spec fn after_jump(c: ContextId, tabs: Seq<usize>, w: nat) -> ContextId {
    if jump_back(c, w) is Some {
        jump_back(c, w)->0
    } else if window_of(c) == w {
        tab_context(w, (tab_of(c) + 1) % tab_count(w))
    } else {
        tab_context(w, tabs[w - 1] as nat)
    }
}

/// The panel after panel `w` (1 to 5), round.
pub open spec fn next_window(w: nat) -> nat {
    if w >= 5 {
        1
    } else {
        w + 1
    }
}

/// The panel before panel `w` (1 to 5), round.
pub open spec fn prev_window(w: nat) -> nat {
    if w <= 1 {
        5
    } else {
        (w - 1) as nat
    }
}

/// The position of list `c` among the lists, 0 to 14.
pub open spec fn list_index(c: ContextId) -> nat {
    match c {
        ContextId::Status => 0,
        ContextId::Files => 1,
        ContextId::Worktrees => 2,
        ContextId::Submodules => 3,
        ContextId::Branches => 4,
        ContextId::Remotes => 5,
        ContextId::Tags => 6,
        ContextId::RemoteBranches => 7,
        ContextId::BranchCommits => 8,
        ContextId::BranchCommitFiles => 9,
        ContextId::Commits => 10,
        ContextId::Reflog => 11,
        ContextId::CommitFiles => 12,
        ContextId::Stash => 13,
        ContextId::StashFiles => 14,
    }
}

fn list_index_exec(c: ContextId) -> (i: usize)
    ensures
        i == list_index(c),
{
    match c {
        ContextId::Status => 0,
        ContextId::Files => 1,
        ContextId::Worktrees => 2,
        ContextId::Submodules => 3,
        ContextId::Branches => 4,
        ContextId::Remotes => 5,
        ContextId::Tags => 6,
        ContextId::RemoteBranches => 7,
        ContextId::BranchCommits => 8,
        ContextId::BranchCommitFiles => 9,
        ContextId::Commits => 10,
        ContextId::Reflog => 11,
        ContextId::CommitFiles => 12,
        ContextId::Stash => 13,
        ContextId::StashFiles => 14,
    }
}

/// Where the side panels stand: the active list, the tab each panel (1 to 5) shows last,
/// and the selected entry of each list (by `list_index`), kept while other lists are
/// active.
pub struct Navigation {
    pub active: ContextId,
    pub tabs: Vec<usize>,
    pub selected: Vec<usize>,
}

impl Navigation {
    /// Five panels, each tab one of the panel's; a selection for each list.
    pub open spec fn well_formed(&self) -> bool {
        &&& self.tabs@.len() == 5
        &&& forall|w: int| 1 <= w <= 5 ==> (#[trigger] self.tabs@[w - 1] as nat) < tab_count(w as nat)
        &&& self.selected@.len() == 15
    }

    /// The files panel active, every panel on its first tab, the first entry of every
    /// list selected.
    pub fn new() -> (n: Navigation)
        ensures
            n.well_formed(),
            n.active == ContextId::Files,
            n.tabs@ == seq![0usize, 0, 0, 0, 0],
            forall|i: int| 0 <= i < 15 ==> n.selected@[i] == 0,
    {
        Navigation {
            active: ContextId::Files,
            tabs: vec![0, 0, 0, 0, 0],
            selected: vec![0, 0, 0, 0, 0, 0, 0, 0, 0, 0, 0, 0, 0, 0, 0],
        }
    }

    /// The selected entry of the active list.
    pub fn selected_active(&self) -> (r: usize)
        requires
            self.well_formed(),
        ensures
            r == self.selected@[list_index(self.active) as int],
    {
        self.selected[list_index_exec(self.active)]
    }
}

/// The active list after the navigation action `a` from `c` (other actions leave it).
pub open spec fn active_after(c: ContextId, tabs: Seq<usize>, a: KeyAction) -> ContextId {
    match a {
        KeyAction::JumpToWindow(n) => if 1 <= n <= 5 {
            after_jump(c, tabs, n as nat)
        } else {
            c
        },
        KeyAction::NextWindow => {
            let w = next_window(window_of(out_of_sub_lists(c)));
            tab_context(w, tabs[w - 1] as nat)
        },
        KeyAction::PrevWindow => {
            let w = prev_window(window_of(out_of_sub_lists(c)));
            tab_context(w, tabs[w - 1] as nat)
        },
        _ => c,
    }
}

/// The selected entry after the action `a` on a list of `len` entries: one up, stopping
/// at the first; one down, stopping at the last; the first; the last.
pub open spec fn selected_after(sel: nat, len: nat, a: KeyAction) -> nat {
    match a {
        KeyAction::PrevItem => if sel > 0 {
            (sel - 1) as nat
        } else {
            0
        },
        KeyAction::NextItem => if sel + 1 < len {
            sel + 1
        } else if len > 0 {
            (len - 1) as nat
        } else {
            sel
        },
        KeyAction::GotoTop => 0,
        KeyAction::GotoBottom => if len > 0 {
            (len - 1) as nat
        } else {
            sel
        },
        _ => sel,
    }
}

fn window_index(c: ContextId) -> (w: usize)
    ensures
        w == window_of(c),
{
    match c {
        ContextId::Status => 1,
        ContextId::Files | ContextId::Worktrees | ContextId::Submodules => 2,
        ContextId::Branches | ContextId::Remotes | ContextId::Tags | ContextId::RemoteBranches
        | ContextId::BranchCommits | ContextId::BranchCommitFiles => 3,
        ContextId::Commits | ContextId::Reflog | ContextId::CommitFiles => 4,
        ContextId::Stash | ContextId::StashFiles => 5,
    }
}

fn tab_context_exec(w: usize, t: usize) -> (c: ContextId)
    ensures
        c == tab_context(w as nat, t as nat),
{
    if w == 2 {
        if t == 0 {
            ContextId::Files
        } else if t == 1 {
            ContextId::Worktrees
        } else {
            ContextId::Submodules
        }
    } else if w == 3 {
        if t == 0 {
            ContextId::Branches
        } else if t == 1 {
            ContextId::Remotes
        } else {
            ContextId::Tags
        }
    } else if w == 4 {
        if t == 0 {
            ContextId::Commits
        } else {
            ContextId::Reflog
        }
    } else if w == 5 {
        ContextId::Stash
    } else {
        ContextId::Status
    }
}

fn tab_of_exec(c: ContextId) -> (t: usize)
    ensures
        t == tab_of(c),
{
    match c {
        ContextId::Worktrees | ContextId::Remotes | ContextId::RemoteBranches | ContextId::Reflog => 1,
        ContextId::Submodules | ContextId::Tags => 2,
        _ => 0,
    }
}

fn tab_count_exec(w: usize) -> (n: usize)
    ensures
        n == tab_count(w as nat),
{
    if w == 2 || w == 3 {
        3
    } else if w == 4 {
        2
    } else {
        1
    }
}

fn out_of_sub_lists_exec(c: ContextId) -> (r: ContextId)
    ensures
        r == out_of_sub_lists(c),
{
    match c {
        ContextId::CommitFiles => ContextId::Commits,
        ContextId::StashFiles => ContextId::Stash,
        ContextId::BranchCommitFiles | ContextId::BranchCommits => ContextId::Branches,
        ContextId::RemoteBranches => ContextId::Remotes,
        _ => c,
    }
}

/// Carries out the navigation action `a` on the side panels, the active list holding
/// `len` entries: the active list, the panels' tabs (a panel keeps the tab it shows) and
/// the active list's selection change as `active_after` and `selected_after` say (the
/// other lists keep theirs); other actions leave the navigation as it is.
pub fn apply_nav(nav: &mut Navigation, a: KeyAction, len: usize)
    requires
        old(nav).well_formed(),
    ensures
        final(nav).well_formed(),
        final(nav).active == active_after(old(nav).active, old(nav).tabs@, a),
        final(nav).selected@ == old(nav).selected@.update(
            list_index(old(nav).active) as int,
            selected_after(old(nav).selected@[list_index(old(nav).active) as int] as nat, len as nat, a) as usize,
        ),
        final(nav).tabs@ == old(nav).tabs@.update(
            window_of(final(nav).active) - 1,
            tab_of(final(nav).active) as usize,
        ),
{
    let c = nav.active;
    let next = match a {
        KeyAction::JumpToWindow(n) => {
            if 1 <= n && n <= 5 {
                let w = n as usize;
                let back = match c {
                    ContextId::CommitFiles => if w == 4 {
                        Some(ContextId::Commits)
                    } else {
                        None
                    },
                    ContextId::StashFiles => if w == 5 {
                        Some(ContextId::Stash)
                    } else {
                        None
                    },
                    ContextId::BranchCommitFiles => if w == 3 {
                        Some(ContextId::BranchCommits)
                    } else {
                        None
                    },
                    ContextId::BranchCommits => if w == 3 {
                        Some(ContextId::Branches)
                    } else {
                        None
                    },
                    ContextId::RemoteBranches => if w == 3 {
                        Some(ContextId::Remotes)
                    } else {
                        None
                    },
                    _ => None,
                };
                match back {
                    Some(p) => p,
                    None => if window_index(c) == w {
                        tab_context_exec(w, (tab_of_exec(c) + 1) % tab_count_exec(w))
                    } else {
                        tab_context_exec(w, nav.tabs[w - 1])
                    },
                }
            } else {
                c
            }
        },
        KeyAction::NextWindow => {
            let cur = window_index(out_of_sub_lists_exec(c));
            let w = if cur >= 5 {
                1
            } else {
                cur + 1
            };
            tab_context_exec(w, nav.tabs[w - 1])
        },
        KeyAction::PrevWindow => {
            let cur = window_index(out_of_sub_lists_exec(c));
            let w = if cur <= 1 {
                5
            } else {
                cur - 1
            };
            tab_context_exec(w, nav.tabs[w - 1])
        },
        _ => c,
    };
    let ci = list_index_exec(c);
    let sel = nav.selected[ci];
    let new_sel = match a {
        KeyAction::PrevItem => if sel > 0 {
            sel - 1
        } else {
            0
        },
        KeyAction::NextItem => if sel < len && len - sel > 1 {
            sel + 1
        } else if len > 0 {
            len - 1
        } else {
            sel
        },
        KeyAction::GotoTop => 0,
        KeyAction::GotoBottom => if len > 0 {
            len - 1
        } else {
            sel
        },
        _ => sel,
    };
    nav.selected.set(ci, new_sel);
    let wi = window_index(next);
    let ti = tab_of_exec(next);
    nav.tabs.set(wi - 1, ti);
    nav.active = next;
    proof {
        assert forall|w: int| 1 <= w <= 5 implies (#[trigger] nav.tabs@[w - 1] as nat) < tab_count(w as nat) by {
            if w != wi {
                assert(nav.tabs@[w - 1] == old(nav).tabs@[w - 1]);
            }
        }
    }
}

/// Pressing the number of the panel a sub-list is shown in goes one level up: from a
/// commit's files to the commits, from a stash entry's files to the stash, from a branch
/// commit's files to the branch's commits, from those to the branches, from a remote's
/// branches to the remotes.
pub proof fn lemma_jump_leaves_sub_list(c: ContextId, tabs: Seq<usize>)
    requires
        out_of_sub_lists(c) != c,
    ensures
        active_after(c, tabs, KeyAction::JumpToWindow(window_of(c) as u8)) == (match c {
            ContextId::BranchCommitFiles => ContextId::BranchCommits,
            _ => out_of_sub_lists(c),
        }),
{
}

/// Moving to the next panel and back to the previous one returns to the same list, for a
/// list that is a panel's tab (the tabs being those `apply_nav` keeps).
pub proof fn lemma_next_then_prev_window(c: ContextId, tabs: Seq<usize>)
    requires
        out_of_sub_lists(c) == c,
        tabs.len() == 5,
        forall|w: int| 1 <= w <= 5 ==> (#[trigger] tabs[w - 1] as nat) < tab_count(w as nat),
    ensures
        ({
            let kept = tabs.update(window_of(c) - 1, tab_of(c) as usize);
            let n = active_after(c, kept, KeyAction::NextWindow);
            let kept2 = kept.update(window_of(n) - 1, tab_of(n) as usize);
            active_after(n, kept2, KeyAction::PrevWindow) == c
        }),
{
    let kept = tabs.update(window_of(c) - 1, tab_of(c) as usize);
    let n = active_after(c, kept, KeyAction::NextWindow);
    let w = next_window(window_of(c));
    assert((kept[w - 1] as nat) < tab_count(w)) by {
        if w != window_of(c) {
            assert(kept[w - 1] == tabs[w - 1]);
        }
    }
    assert(window_of(n) == w);
}

/// Moving between lists leaves every selection as it was: a jump to a panel, or a move to
/// the next or previous panel, changes no list's selected entry.
pub proof fn lemma_panel_moves_keep_selection(sel: nat, len: nat, a: KeyAction)
    requires
        a is JumpToWindow || a is NextWindow || a is PrevWindow,
    ensures
        selected_after(sel, len, a) == sel,
{
}

/// The list a click on side panel `w` (1 to 5) activates: the active list when it is
/// shown in that panel (a sub-list included), else the tab the panel shows.
pub open spec fn clicked_panel_list(c: ContextId, tabs: Seq<usize>, w: nat) -> ContextId {
    if window_of(c) == w {
        c
    } else {
        tab_context(w, tabs[w - 1] as nat)
    }
}

/// The entry a click on row `row` of `rect` lands on (see `clicked_entry`), with no
/// arithmetic that could overflow.
fn click_index(rect: crate::pager::side_by_side::PanelRect, row: u16, selected: usize, len: usize) -> (r: Option<usize>)
    ensures
        r == (match clicked_entry(rect, row as int, selected as int, len as int) {
            Some(i) => Some(i as usize),
            None => None,
        }),
{
    let inner: usize = if row > rect.y {
        (row - rect.y - 1) as usize
    } else {
        0
    };
    let visible: usize = rect.height.saturating_sub(2) as usize;
    let scroll: usize = if selected < visible {
        0
    } else if selected - visible < len {
        selected - visible + 1
    } else {
        len
    };
    if scroll < len && inner < len - scroll {
        Some(scroll + inner)
    } else {
        None
    }
}

/// Carries out a click on a list (see `main_mouse`): a click on side panel `w` makes
/// `clicked_panel_list` active (the panel keeping that tab); then the entry clicked, if
/// the row holds one, becomes that list's selection. `lens` gives each list's length,
/// by `list_index`.
pub fn apply_panel_click(nav: &mut Navigation, click: PanelClick, lens: &Vec<usize>)
    requires
        old(nav).well_formed(),
        lens@.len() == 15,
        click.window matches Some(w) ==> 1 <= w <= 5,
    ensures
        final(nav).well_formed(),
        final(nav).active == (match click.window {
            Some(w) => clicked_panel_list(old(nav).active, old(nav).tabs@, w as nat),
            None => old(nav).active,
        }),
        final(nav).tabs@ == (match click.window {
            Some(w) => old(nav).tabs@.update(window_of(final(nav).active) - 1, tab_of(final(nav).active) as usize),
            None => old(nav).tabs@,
        }),
        ({
            let k = list_index(final(nav).active) as int;
            final(nav).selected@ == match clicked_entry(
                click.rect,
                click.row as int,
                old(nav).selected@[k] as int,
                lens@[k] as int,
            ) {
                Some(i) => old(nav).selected@.update(k, i as usize),
                None => old(nav).selected@,
            }
        }),
{
    match click.window {
        Some(w8) => {
            let w = w8 as usize;
            let c = nav.active;
            let next = if window_index(c) == w {
                c
            } else {
                tab_context_exec(w, nav.tabs[w - 1])
            };
            let wi = window_index(next);
            let ti = tab_of_exec(next);
            nav.tabs.set(wi - 1, ti);
            nav.active = next;
            proof {
                assert forall|v: int| 1 <= v <= 5 implies (#[trigger] nav.tabs@[v - 1] as nat) < tab_count(v as nat) by {
                    if v != wi {
                        assert(nav.tabs@[v - 1] == old(nav).tabs@[v - 1]);
                    }
                }
            }
        },
        None => {},
    }
    let k = list_index_exec(nav.active);
    let sel = nav.selected[k];
    match click_index(click.rect, click.row, sel, lens[k]) {
        Some(i) => {
            nav.selected.set(k, i);
        },
        None => {},
    }
}

/// The active list's selection after the wheel moves it by three: up, stopping at the
/// first entry; down, stopping at the last.
pub open spec fn wheeled(sel: nat, len: nat, down: bool) -> nat {
    if down {
        if sel + 3 < len {
            sel + 3
        } else if len > 0 {
            (len - 1) as nat
        } else {
            sel
        }
    } else if sel >= 3 {
        (sel - 3) as nat
    } else {
        0
    }
}

/// Moves the active list's selection by three with the wheel (see `wheeled`), the list
/// holding `len` entries; the other lists keep theirs.
pub fn wheel_selection(nav: &mut Navigation, down: bool, len: usize)
    requires
        old(nav).well_formed(),
    ensures
        final(nav).well_formed(),
        final(nav).active == old(nav).active,
        final(nav).tabs@ == old(nav).tabs@,
        final(nav).selected@ == old(nav).selected@.update(
            list_index(old(nav).active) as int,
            wheeled(old(nav).selected@[list_index(old(nav).active) as int] as nat, len as nat, down) as usize,
        ),
{
    let k = list_index_exec(nav.active);
    let sel = nav.selected[k];
    let next = if down {
        if sel < len && len - sel > 3 {
            sel + 3
        } else if len > 0 {
            len - 1
        } else {
            sel
        }
    } else if sel >= 3 {
        sel - 3
    } else {
        0
    };
    nav.selected.set(k, next);
}

} // verus!

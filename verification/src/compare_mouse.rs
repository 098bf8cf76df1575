use vstd::prelude::*;

use crate::pager::side_by_side::PanelRect;
use crate::ui::rect_contains;

verus! {

/// A mouse event: what happened, where, and whether shift was held.
#[derive(Debug, Clone, Copy, PartialEq, Eq, Structural)]
pub enum MouseKind {
    LeftDown,
    LeftDrag,
    LeftUp,
    ScrollUp,
    ScrollDown,
    ScrollLeft,
    ScrollRight,
    Other,
}

/// A mouse event at a terminal cell.
#[derive(Debug, Clone, Copy, PartialEq, Eq, Structural)]
pub struct MouseInput {
    pub kind: MouseKind,
    pub column: u16,
    pub row: u16,
    pub shift: bool,
}

/// The two refs the compare view compares.
#[derive(Debug, Clone, Copy, PartialEq, Eq, Structural)]
pub enum Selector {
    A,
    B,
}

/// The part of the compare view that has the focus.
#[derive(Debug, Clone, Copy, PartialEq, Eq, Structural)]
pub enum CompareFocus {
    SelectorA,
    SelectorB,
    CommitFiles,
    DiffExploration,
}

/// The popup over the compare view, as far as the mouse wheel is concerned.
#[derive(Debug, Clone, Copy, PartialEq, Eq, Structural)]
pub enum WheelPopup {
    NoPopup,
    /// The help popup or the ref picker: the wheel moves through it.
    Scrollable,
}

/// What the mouse reads and changes of the compare view.
#[derive(Debug, Clone, Copy, PartialEq, Eq, Structural)]
pub struct CompareMouse {
    pub popup: WheelPopup,
    pub focus: CompareFocus,
    /// The selector being typed into, if any.
    pub editing: Option<Selector>,
    /// Number of refs the typed text matches (the dropdown's entries).
    pub result_count: usize,
    /// First dropdown entry shown.
    pub dropdown_scroll: usize,
    /// The dropdown entry selected.
    pub result_selected: usize,
    /// Number of files listed.
    pub file_count: usize,
    /// The file selected.
    pub file_selected: usize,
    /// Whether the diff panel has nothing to show.
    pub diff_empty: bool,
}

/// The regions of the compare view on screen: the two selectors, the file list and the
/// diff, and the height of the whole screen.
#[derive(Debug, Clone, Copy, PartialEq, Eq, Structural)]
pub struct CompareRegions {
    pub selector_a: PanelRect,
    pub selector_b: PanelRect,
    pub files: PanelRect,
    pub diff: PanelRect,
    pub height: u16,
}

/// What the diff panel does with a mouse event.
#[derive(Debug, Clone, Copy, PartialEq, Eq, Structural)]
pub enum DiffEffect {
    Keep,
    /// Start a text selection at the event's cell.
    StartSelection,
    /// Extend the text selection being dragged to the event's cell.
    DragSelection,
    /// End the text selection being dragged.
    ReleaseSelection,
    ScrollUp(usize),
    ScrollDown(usize),
    ScrollLeft(usize),
    ScrollRight(usize),
}

/// What a mouse event asks of the parts of the screen outside the compare view's state.
#[derive(Debug, Clone, Copy, PartialEq, Eq, Structural)]
pub struct CompareMouseEffect {
    /// The wheel moved through the open popup: `Some(true)` down, `Some(false)` up.
    pub popup_wheel: Option<bool>,
    /// The dropdown entry now selected is to be confirmed.
    pub confirm_result: bool,
    /// The dropdown is to scroll so that its selected entry shows.
    pub reveal_result: bool,
    /// Editing of this selector starts, with the refs searched again.
    pub edit: Option<Selector>,
    /// The diff's text selection is dropped (before the diff effect).
    pub drop_selection: bool,
    pub diff: DiffEffect,
    /// The diff is to be loaded again.
    pub refresh_diff: bool,
}

/// The rectangle fits on a terminal: its right and bottom edges are columns and rows.
pub open spec fn rect_fits(r: PanelRect) -> bool {
    r.x + r.width <= u16::MAX && r.y + r.height <= u16::MAX
}

pub open spec fn regions_fit(l: CompareRegions) -> bool {
    rect_fits(l.selector_a) && rect_fits(l.selector_b) && rect_fits(l.files) && rect_fits(l.diff)
}

pub open spec fn inside(r: PanelRect, col: u16, row: u16) -> bool {
    r.x <= col < r.x + r.width && r.y <= row < r.y + r.height
}

/// `a - b`, or 0 when `b` is larger.
pub open spec fn minus(a: int, b: int) -> int {
    if a > b {
        a - b
    } else {
        0
    }
}

/// The dropdown of the selector being edited: right below it, one row per matching ref
/// (ten at most) and its two borders, cut at the bottom of the screen.
pub open spec fn dropdown_rect(s: CompareMouse, l: CompareRegions) -> PanelRect {
    let anchor = if s.editing == Some(Selector::A) {
        l.selector_a
    } else {
        l.selector_b
    };
    let items = if s.result_count < 10 {
        s.result_count as int
    } else {
        10
    };
    let bottom = anchor.y + anchor.height;
    let avail = minus(l.height as int, bottom);
    PanelRect {
        x: anchor.x,
        y: bottom as u16,
        width: anchor.width,
        height: (if items + 2 < avail {
            items + 2
        } else {
            avail
        }) as u16,
    }
}

/// One of `count` entries, `sel` moved down by three and stopped at the last.
pub open spec fn down_three(sel: int, count: int) -> int {
    if sel + 3 < count - 1 {
        sel + 3
    } else {
        count - 1
    }
}

/// Nothing asked of the rest of the screen.
pub open spec fn no_effect() -> CompareMouseEffect {
    CompareMouseEffect {
        popup_wheel: None,
        confirm_result: false,
        reveal_result: false,
        edit: None,
        drop_selection: false,
        diff: DiffEffect::Keep,
        refresh_diff: false,
    }
}

/// The file row clicked at `row` in the file list `files`, the list being scrolled so
/// that the selected file `sel` shows.
pub open spec fn clicked_file(files: PanelRect, row: u16, sel: int) -> int {
    let vh = minus(files.height as int, 2);
    let scroll = if sel >= vh {
        sel - vh + 1
    } else {
        0
    };
    scroll + minus(row as int, files.y + 1)
}

/// A mouse event `ev` in the compare view: an open popup takes the wheel; while a
/// selector is edited the dropdown below it takes clicks and the wheel; else a click
/// starts a text selection in the diff or moves the focus (and starts editing a
/// selector, or selects a file), dragging and releasing act on the text selection, and
/// the wheel drops the text selection and scrolls the diff (sideways with shift) or
/// moves through the files by three.
pub open spec fn compare_mouse_of(s: CompareMouse, l: CompareRegions, ev: MouseInput) -> (CompareMouse, CompareMouseEffect) {
    let col = ev.column;
    let row = ev.row;
    let none = no_effect();
    if s.popup == WheelPopup::Scrollable {
        match ev.kind {
            MouseKind::ScrollUp => (s, CompareMouseEffect { popup_wheel: Some(false), ..none }),
            MouseKind::ScrollDown => (s, CompareMouseEffect { popup_wheel: Some(true), ..none }),
            _ => (s, none),
        }
    } else if s.editing is Some && s.result_count > 0 && inside(dropdown_rect(s, l), col, row)
        && (ev.kind == MouseKind::LeftDown || ev.kind == MouseKind::ScrollUp || ev.kind == MouseKind::ScrollDown) {
        let d = dropdown_rect(s, l);
        match ev.kind {
            MouseKind::LeftDown => {
                let idx = s.dropdown_scroll + minus(row as int, d.y + 1);
                if idx < s.result_count {
                    (
                        CompareMouse { result_selected: idx as usize, ..s },
                        CompareMouseEffect { confirm_result: true, refresh_diff: true, ..none },
                    )
                } else {
                    (s, none)
                }
            },
            MouseKind::ScrollUp => if s.result_selected > 0 {
                (
                    CompareMouse { result_selected: minus(s.result_selected as int, 3) as usize, ..s },
                    CompareMouseEffect { reveal_result: true, ..none },
                )
            } else {
                (s, none)
            },
            _ => (
                CompareMouse { result_selected: down_three(s.result_selected as int, s.result_count as int) as usize, ..s },
                CompareMouseEffect { reveal_result: true, ..none },
            ),
        }
    } else {
        match ev.kind {
            MouseKind::LeftDown => if inside(l.diff, col, row) && !s.diff_empty {
                (
                    CompareMouse { focus: CompareFocus::DiffExploration, ..s },
                    CompareMouseEffect { diff: DiffEffect::StartSelection, ..none },
                )
            } else {
                let cleared = CompareMouseEffect { drop_selection: true, ..none };
                if inside(l.selector_a, col, row) {
                    (
                        CompareMouse { focus: CompareFocus::SelectorA, ..s },
                        CompareMouseEffect { edit: Some(Selector::A), ..cleared },
                    )
                } else if inside(l.selector_b, col, row) {
                    (
                        CompareMouse { focus: CompareFocus::SelectorB, ..s },
                        CompareMouseEffect { edit: Some(Selector::B), ..cleared },
                    )
                } else if inside(l.files, col, row) {
                    let idx = clicked_file(l.files, row, s.file_selected as int);
                    if idx < s.file_count {
                        (
                            CompareMouse { focus: CompareFocus::CommitFiles, file_selected: idx as usize, ..s },
                            CompareMouseEffect { refresh_diff: true, ..cleared },
                        )
                    } else {
                        (CompareMouse { focus: CompareFocus::CommitFiles, ..s }, cleared)
                    }
                } else if inside(l.diff, col, row) {
                    (CompareMouse { focus: CompareFocus::DiffExploration, ..s }, cleared)
                } else {
                    (s, cleared)
                }
            },
            MouseKind::LeftDrag => (s, CompareMouseEffect { diff: DiffEffect::DragSelection, ..none }),
            MouseKind::LeftUp => (s, CompareMouseEffect { diff: DiffEffect::ReleaseSelection, ..none }),
            MouseKind::ScrollUp => if inside(l.diff, col, row) {
                (
                    s,
                    CompareMouseEffect {
                        drop_selection: true,
                        diff: if ev.shift {
                            DiffEffect::ScrollLeft(4)
                        } else {
                            DiffEffect::ScrollUp(3)
                        },
                        ..none
                    },
                )
            } else if inside(l.files, col, row) && s.file_count > 0 {
                (
                    CompareMouse { file_selected: minus(s.file_selected as int, 3) as usize, ..s },
                    CompareMouseEffect { refresh_diff: true, ..none },
                )
            } else {
                (s, none)
            },
            MouseKind::ScrollDown => if inside(l.diff, col, row) {
                (
                    s,
                    CompareMouseEffect {
                        drop_selection: true,
                        diff: if ev.shift {
                            DiffEffect::ScrollRight(4)
                        } else {
                            DiffEffect::ScrollDown(3)
                        },
                        ..none
                    },
                )
            } else if inside(l.files, col, row) && s.file_count > 0 {
                (
                    CompareMouse { file_selected: down_three(s.file_selected as int, s.file_count as int) as usize, ..s },
                    CompareMouseEffect { refresh_diff: true, ..none },
                )
            } else {
                (s, none)
            },
            MouseKind::ScrollLeft => if inside(l.diff, col, row) {
                (s, CompareMouseEffect { diff: DiffEffect::ScrollLeft(4), ..none })
            } else {
                (s, none)
            },
            MouseKind::ScrollRight => if inside(l.diff, col, row) {
                (s, CompareMouseEffect { diff: DiffEffect::ScrollRight(4), ..none })
            } else {
                (s, none)
            },
            MouseKind::Other => (s, none),
        }
    }
}

fn effect() -> (e: CompareMouseEffect)
    ensures
        e == no_effect(),
{
    CompareMouseEffect {
        popup_wheel: None,
        confirm_result: false,
        reveal_result: false,
        edit: None,
        drop_selection: false,
        diff: DiffEffect::Keep,
        refresh_diff: false,
    }
}

fn down_three_exec(sel: usize, count: usize) -> (r: usize)
    requires
        count > 0,
    ensures
        r == down_three(sel as int, count as int),
{
    if sel < count - 1 && count - 1 - sel > 3 {
        sel + 3
    } else {
        count - 1
    }
}

fn dropdown(s: &CompareMouse, l: &CompareRegions) -> (d: PanelRect)
    requires
        regions_fit(*l),
    ensures
        d == dropdown_rect(*s, *l),
        rect_fits(d),
{
    let anchor = if s.editing == Some(Selector::A) {
        l.selector_a
    } else {
        l.selector_b
    };
    let items: u16 = if s.result_count < 10 {
        s.result_count as u16
    } else {
        10
    };
    let bottom = anchor.y + anchor.height;
    let avail = l.height.saturating_sub(bottom);
    let height = if items + 2 < avail {
        items + 2
    } else {
        avail
    };
    PanelRect { x: anchor.x, y: bottom, width: anchor.width, height }
}

/// Handles the mouse event `ev` in the compare view `s` laid out as `l` (see
/// `compare_mouse_of`): the view's new state and what the rest of the screen is to do.
pub fn compare_mouse(s: &CompareMouse, l: &CompareRegions, ev: MouseInput) -> (r: (CompareMouse, CompareMouseEffect))
    requires
        regions_fit(*l),
    ensures
        r == compare_mouse_of(*s, *l, ev),
{
    let col = ev.column;
    let row = ev.row;
    let none = effect();
    if s.popup == WheelPopup::Scrollable {
        return match ev.kind {
            MouseKind::ScrollUp => (*s, CompareMouseEffect { popup_wheel: Some(false), ..none }),
            MouseKind::ScrollDown => (*s, CompareMouseEffect { popup_wheel: Some(true), ..none }),
            _ => (*s, none),
        };
    }
    if s.editing.is_some() && s.result_count > 0 && (ev.kind == MouseKind::LeftDown || ev.kind == MouseKind::ScrollUp
        || ev.kind == MouseKind::ScrollDown) {
        let d = dropdown(s, l);
        if rect_contains(d, col, row) {
            return match ev.kind {
                MouseKind::LeftDown => {
                    let inner: usize = if row > d.y {
                        (row - d.y - 1) as usize
                    } else {
                        0
                    };
                    if s.dropdown_scroll < s.result_count && inner < s.result_count - s.dropdown_scroll {
                        (
                            CompareMouse { result_selected: s.dropdown_scroll + inner, ..*s },
                            CompareMouseEffect { confirm_result: true, refresh_diff: true, ..none },
                        )
                    } else {
                        (*s, none)
                    }
                },
                MouseKind::ScrollUp => if s.result_selected > 0 {
                    (
                        CompareMouse { result_selected: s.result_selected.saturating_sub(3), ..*s },
                        CompareMouseEffect { reveal_result: true, ..none },
                    )
                } else {
                    (*s, none)
                },
                _ => (
                    CompareMouse { result_selected: down_three_exec(s.result_selected, s.result_count), ..*s },
                    CompareMouseEffect { reveal_result: true, ..none },
                ),
            };
        }
    }
    match ev.kind {
        MouseKind::LeftDown => if rect_contains(l.diff, col, row) && !s.diff_empty {
            (
                CompareMouse { focus: CompareFocus::DiffExploration, ..*s },
                CompareMouseEffect { diff: DiffEffect::StartSelection, ..none },
            )
        } else {
            let cleared = CompareMouseEffect { drop_selection: true, ..none };
            if rect_contains(l.selector_a, col, row) {
                (
                    CompareMouse { focus: CompareFocus::SelectorA, ..*s },
                    CompareMouseEffect { edit: Some(Selector::A), ..cleared },
                )
            } else if rect_contains(l.selector_b, col, row) {
                (
                    CompareMouse { focus: CompareFocus::SelectorB, ..*s },
                    CompareMouseEffect { edit: Some(Selector::B), ..cleared },
                )
            } else if rect_contains(l.files, col, row) {
                let inner: usize = if row > l.files.y {
                    (row - l.files.y - 1) as usize
                } else {
                    0
                };
                let vh: usize = l.files.height.saturating_sub(2) as usize;
                let sel = s.file_selected;
                // The first row shown; past every index when it does not fit.
                let scroll: usize = if sel < vh {
                    0
                } else if sel - vh < s.file_count {
                    sel - vh + 1
                } else {
                    s.file_count
                };
                if scroll < s.file_count && inner < s.file_count - scroll {
                    (
                        CompareMouse { focus: CompareFocus::CommitFiles, file_selected: scroll + inner, ..*s },
                        CompareMouseEffect { refresh_diff: true, ..cleared },
                    )
                } else {
                    (CompareMouse { focus: CompareFocus::CommitFiles, ..*s }, cleared)
                }
            } else if rect_contains(l.diff, col, row) {
                (CompareMouse { focus: CompareFocus::DiffExploration, ..*s }, cleared)
            } else {
                (*s, cleared)
            }
        },
        MouseKind::LeftDrag => (*s, CompareMouseEffect { diff: DiffEffect::DragSelection, ..none }),
        MouseKind::LeftUp => (*s, CompareMouseEffect { diff: DiffEffect::ReleaseSelection, ..none }),
        MouseKind::ScrollUp => if rect_contains(l.diff, col, row) {
            let diff = if ev.shift {
                DiffEffect::ScrollLeft(4)
            } else {
                DiffEffect::ScrollUp(3)
            };
            (*s, CompareMouseEffect { drop_selection: true, diff, ..none })
        } else if rect_contains(l.files, col, row) && s.file_count > 0 {
            (
                CompareMouse { file_selected: s.file_selected.saturating_sub(3), ..*s },
                CompareMouseEffect { refresh_diff: true, ..none },
            )
        } else {
            (*s, none)
        },
        MouseKind::ScrollDown => if rect_contains(l.diff, col, row) {
            let diff = if ev.shift {
                DiffEffect::ScrollRight(4)
            } else {
                DiffEffect::ScrollDown(3)
            };
            (*s, CompareMouseEffect { drop_selection: true, diff, ..none })
        } else if rect_contains(l.files, col, row) && s.file_count > 0 {
            (
                CompareMouse { file_selected: down_three_exec(s.file_selected, s.file_count), ..*s },
                CompareMouseEffect { refresh_diff: true, ..none },
            )
        } else {
            (*s, none)
        },
        MouseKind::ScrollLeft => if rect_contains(l.diff, col, row) {
            (*s, CompareMouseEffect { diff: DiffEffect::ScrollLeft(4), ..none })
        } else {
            (*s, none)
        },
        MouseKind::ScrollRight => if rect_contains(l.diff, col, row) {
            (*s, CompareMouseEffect { diff: DiffEffect::ScrollRight(4), ..none })
        } else {
            (*s, none)
        },
        MouseKind::Other => (*s, none),
    }
}

/// Where the focus goes once a dropdown entry is confirmed: to the files when both refs
/// are set (the files being loaded again), else to the selector still empty, A first,
/// which is then edited.
pub open spec fn focus_after_confirm_of(has_both_refs: bool, ref_a_empty: bool) -> (CompareFocus, Option<Selector>) {
    if has_both_refs {
        (CompareFocus::CommitFiles, None)
    } else if ref_a_empty {
        (CompareFocus::SelectorA, Some(Selector::A))
    } else {
        (CompareFocus::SelectorB, Some(Selector::B))
    }
}

/// Where the focus goes once a dropdown entry is confirmed (see `focus_after_confirm_of`).
pub fn focus_after_confirm(has_both_refs: bool, ref_a_empty: bool) -> (r: (CompareFocus, Option<Selector>))
    ensures
        r == focus_after_confirm_of(has_both_refs, ref_a_empty),
{
    if has_both_refs {
        (CompareFocus::CommitFiles, None)
    } else if ref_a_empty {
        (CompareFocus::SelectorA, Some(Selector::A))
    } else {
        (CompareFocus::SelectorB, Some(Selector::B))
    }
}

/// The mouse never moves a selection past its list: a selected file stays one of the
/// files, a selected dropdown entry one of the entries.
pub proof fn lemma_mouse_keeps_selections_in_range(s: CompareMouse, l: CompareRegions, ev: MouseInput)
    requires
        s.file_selected < s.file_count,
        s.result_selected < s.result_count,
    ensures
        compare_mouse_of(s, l, ev).0.file_selected < s.file_count,
        compare_mouse_of(s, l, ev).0.result_selected < s.result_count,
        compare_mouse_of(s, l, ev).0.file_count == s.file_count,
        compare_mouse_of(s, l, ev).0.result_count == s.result_count,
{
}

} // verus!

use vstd::prelude::*;

use crate::compare_mouse::{inside, rect_fits, DiffEffect, MouseInput, MouseKind, WheelPopup};
use crate::pager::side_by_side::{panel_at, DiffPanelLayout, PanelRect, TextSelection};
use crate::ui::rect_contains;

verus! {

/// What the mouse reads and changes of the normal screen.
#[derive(Debug, Clone, Copy, PartialEq, Eq, Structural)]
pub struct MainMouse {
    /// Mouse events are turned on in the configuration.
    pub mouse_events: bool,
    /// The interactive rebase view is shown, with this many entries and this one selected.
    pub rebase_mode: bool,
    pub rebase_count: usize,
    pub rebase_selected: usize,
    /// The compare view is shown (it handles the mouse itself).
    pub compare_mode: bool,
    pub popup: WheelPopup,
    /// The diff panel has the focus.
    pub diff_focused: bool,
    /// The screen mode shows one panel over the whole screen.
    pub full_screen: bool,
    /// The diff panel has nothing to show.
    pub diff_empty: bool,
}

/// The regions of the normal screen: the main (diff) panel and the side panels, in
/// panel order (none in full-screen mode).
pub struct MainRegions {
    pub main: PanelRect,
    pub sides: Vec<PanelRect>,
}

/// Every region's right and bottom edges are terminal columns and rows.
pub open spec fn main_regions_fit(l: &MainRegions) -> bool {
    &&& rect_fits(l.main)
    &&& l.sides@.len() <= 5
    &&& forall|i: int| 0 <= i < l.sides@.len() ==> rect_fits(#[trigger] l.sides@[i])
}

/// A click on a list: in the side panel of this number (1 to 5), or in the active list
/// when it fills the main panel (`None`); the panel's rectangle and the row clicked.
#[derive(Debug, Clone, Copy, PartialEq, Eq, Structural)]
pub struct PanelClick {
    pub window: Option<u8>,
    pub rect: PanelRect,
    pub row: u16,
}

/// What a mouse event asks of the rest of the screen.
#[derive(Debug, Clone, Copy, PartialEq, Eq, Structural)]
pub struct MainMouseEffect {
    /// The compare view is to handle the event.
    pub to_compare_view: bool,
    /// The wheel moved through the open popup: `Some(true)` down, `Some(false)` up.
    pub popup_wheel: Option<bool>,
    /// The diff's text selection is dropped (before the diff effect).
    pub drop_selection: bool,
    pub diff: DiffEffect,
    /// A list was clicked.
    pub click: Option<PanelClick>,
    /// The active list's selection moves by three: `Some(true)` down, `Some(false)` up.
    pub move_selection: Option<bool>,
}

pub open spec fn no_main_effect() -> MainMouseEffect {
    MainMouseEffect {
        to_compare_view: false,
        popup_wheel: None,
        drop_selection: false,
        diff: DiffEffect::Keep,
        click: None,
        move_selection: None,
    }
}

/// The first side panel, from `i` on, that holds the cell (`col`, `row`).
pub open spec fn side_hit(sides: Seq<PanelRect>, col: u16, row: u16, i: int) -> Option<int>
    decreases sides.len() - i,
{
    if i < 0 || i >= sides.len() {
        None
    } else if inside(sides[i], col, row) {
        Some(i)
    } else {
        side_hit(sides, col, row, i + 1)
    }
}

/// A click outside the diff selection: in full-screen mode with the side panels focused,
/// the main panel shows the active list and the click lands on it; else a click on the
/// main panel focuses the diff (when it has one), and a click on a side panel moves the
/// focus to the side panels and lands on that panel's list.
pub open spec fn click_of(s: MainMouse, l: &MainRegions, col: u16, row: u16) -> (MainMouse, Option<PanelClick>) {
    if s.full_screen && !s.diff_focused {
        if inside(l.main, col, row) {
            (s, Some(PanelClick { window: None, rect: l.main, row }))
        } else {
            (s, None)
        }
    } else if inside(l.main, col, row) {
        (MainMouse { diff_focused: if s.diff_empty {
            s.diff_focused
        } else {
            true
        }, ..s }, None)
    } else {
        match side_hit(l.sides@, col, row, 0) {
            Some(i) => (
                MainMouse { diff_focused: false, ..s },
                Some(PanelClick { window: Some((i + 1) as u8), rect: l.sides@[i], row }),
            ),
            None => (s, None),
        }
    }
}

/// A mouse event `ev` on the normal screen: the rebase view moves its selection with the
/// wheel; the compare view takes the event; an open popup takes the wheel (and ignores
/// clicks); else a click on the diff starts a text selection and focuses the diff, and a
/// click elsewhere drops the selection and lands on a list; dragging and releasing act on
/// the selection; the wheel drops the selection and scrolls the diff (sideways with
/// shift) when the diff has the focus or is under the mouse, else moves the active
/// list's selection by three.
pub open spec fn main_mouse_of(s: MainMouse, l: &MainRegions, ev: MouseInput) -> (MainMouse, MainMouseEffect) {
    let col = ev.column;
    let row = ev.row;
    let none = no_main_effect();
    let in_diff = s.diff_focused || inside(l.main, col, row);
    if !s.mouse_events {
        (s, none)
    } else if s.rebase_mode {
        match ev.kind {
            MouseKind::ScrollDown => if s.rebase_selected + 1 < s.rebase_count {
                (MainMouse { rebase_selected: (s.rebase_selected + 1) as usize, ..s }, none)
            } else {
                (s, none)
            },
            MouseKind::ScrollUp => if s.rebase_selected > 0 {
                (MainMouse { rebase_selected: (s.rebase_selected - 1) as usize, ..s }, none)
            } else {
                (s, none)
            },
            _ => (s, none),
        }
    } else if s.compare_mode {
        (s, MainMouseEffect { to_compare_view: true, ..none })
    } else if s.popup == WheelPopup::Scrollable {
        match ev.kind {
            MouseKind::ScrollUp => (s, MainMouseEffect { popup_wheel: Some(false), ..none }),
            MouseKind::ScrollDown => (s, MainMouseEffect { popup_wheel: Some(true), ..none }),
            _ => (s, none),
        }
    } else {
        match ev.kind {
            MouseKind::LeftDown => if inside(l.main, col, row) && !s.diff_empty && !(s.full_screen && !s.diff_focused) {
                (MainMouse { diff_focused: true, ..s }, MainMouseEffect { diff: DiffEffect::StartSelection, ..none })
            } else {
                let (t, click) = click_of(s, l, col, row);
                (t, MainMouseEffect { drop_selection: true, click, ..none })
            },
            MouseKind::LeftDrag => (s, MainMouseEffect { diff: DiffEffect::DragSelection, ..none }),
            MouseKind::LeftUp => (s, MainMouseEffect { diff: DiffEffect::ReleaseSelection, ..none }),
            MouseKind::ScrollUp => if in_diff {
                (s, MainMouseEffect { drop_selection: true, diff: if ev.shift {
                    DiffEffect::ScrollLeft(4)
                } else {
                    DiffEffect::ScrollUp(3)
                }, ..none })
            } else {
                (s, MainMouseEffect { drop_selection: true, move_selection: Some(false), ..none })
            },
            MouseKind::ScrollDown => if in_diff {
                (s, MainMouseEffect { drop_selection: true, diff: if ev.shift {
                    DiffEffect::ScrollRight(4)
                } else {
                    DiffEffect::ScrollDown(3)
                }, ..none })
            } else {
                (s, MainMouseEffect { drop_selection: true, move_selection: Some(true), ..none })
            },
            MouseKind::ScrollLeft => if in_diff {
                (s, MainMouseEffect { diff: DiffEffect::ScrollLeft(4), ..none })
            } else {
                (s, none)
            },
            MouseKind::ScrollRight => if in_diff {
                (s, MainMouseEffect { diff: DiffEffect::ScrollRight(4), ..none })
            } else {
                (s, none)
            },
            MouseKind::Other => (s, none),
        }
    }
}

fn no_effect() -> (e: MainMouseEffect)
    ensures
        e == no_main_effect(),
{
    MainMouseEffect {
        to_compare_view: false,
        popup_wheel: None,
        drop_selection: false,
        diff: DiffEffect::Keep,
        click: None,
        move_selection: None,
    }
}

fn first_side_hit(sides: &Vec<PanelRect>, col: u16, row: u16) -> (r: Option<usize>)
    requires
        sides@.len() <= 5,
        forall|i: int| 0 <= i < sides@.len() ==> rect_fits(#[trigger] sides@[i]),
    ensures
        r matches Some(i) ==> i < sides@.len() && side_hit(sides@, col, row, 0) == Some(i as int),
        r is None ==> side_hit(sides@, col, row, 0) is None,
{
    let mut i: usize = 0;
    while i < sides.len()
        invariant
            i <= sides@.len(),
            sides@.len() <= 5,
            forall|j: int| 0 <= j < sides@.len() ==> rect_fits(#[trigger] sides@[j]),
            side_hit(sides@, col, row, 0) == side_hit(sides@, col, row, i as int),
        decreases sides.len() - i,
    {
        if rect_contains(sides[i], col, row) {
            return Some(i);
        }
        i = i + 1;
    }
    None
}

fn click(s: &MainMouse, l: &MainRegions, col: u16, row: u16) -> (r: (MainMouse, Option<PanelClick>))
    requires
        main_regions_fit(l),
    ensures
        r == click_of(*s, l, col, row),
{
    if s.full_screen && !s.diff_focused {
        if rect_contains(l.main, col, row) {
            (*s, Some(PanelClick { window: None, rect: l.main, row }))
        } else {
            (*s, None)
        }
    } else if rect_contains(l.main, col, row) {
        (MainMouse { diff_focused: if s.diff_empty {
            s.diff_focused
        } else {
            true
        }, ..*s }, None)
    } else {
        match first_side_hit(&l.sides, col, row) {
            Some(i) => {
                let w: u8 = (i + 1) as u8;
                proof {
                    assert(w == (i as int + 1) as u8);
                }
                (MainMouse { diff_focused: false, ..*s }, Some(PanelClick { window: Some(w), rect: l.sides[i], row }))
            },
            None => (*s, None),
        }
    }
}

/// Handles the mouse event `ev` on the normal screen `s` laid out as `l` (see
/// `main_mouse_of`): the screen's new state and what the rest of it is to do.
pub fn main_mouse(s: &MainMouse, l: &MainRegions, ev: MouseInput) -> (r: (MainMouse, MainMouseEffect))
    requires
        main_regions_fit(l),
    ensures
        r == main_mouse_of(*s, l, ev),
{
    let col = ev.column;
    let row = ev.row;
    let none = no_effect();
    let in_diff = s.diff_focused || rect_contains(l.main, col, row);
    if !s.mouse_events {
        (*s, none)
    } else if s.rebase_mode {
        match ev.kind {
            MouseKind::ScrollDown => if s.rebase_selected < s.rebase_count && s.rebase_count - s.rebase_selected > 1 {
                (MainMouse { rebase_selected: s.rebase_selected + 1, ..*s }, none)
            } else {
                (*s, none)
            },
            MouseKind::ScrollUp => if s.rebase_selected > 0 {
                (MainMouse { rebase_selected: s.rebase_selected - 1, ..*s }, none)
            } else {
                (*s, none)
            },
            _ => (*s, none),
        }
    } else if s.compare_mode {
        (*s, MainMouseEffect { to_compare_view: true, ..none })
    } else if s.popup == WheelPopup::Scrollable {
        match ev.kind {
            MouseKind::ScrollUp => (*s, MainMouseEffect { popup_wheel: Some(false), ..none }),
            MouseKind::ScrollDown => (*s, MainMouseEffect { popup_wheel: Some(true), ..none }),
            _ => (*s, none),
        }
    } else {
        match ev.kind {
            MouseKind::LeftDown => if rect_contains(l.main, col, row) && !s.diff_empty && !(s.full_screen
                && !s.diff_focused) {
                (MainMouse { diff_focused: true, ..*s }, MainMouseEffect { diff: DiffEffect::StartSelection, ..none })
            } else {
                let (t, c) = click(s, l, col, row);
                (t, MainMouseEffect { drop_selection: true, click: c, ..none })
            },
            MouseKind::LeftDrag => (*s, MainMouseEffect { diff: DiffEffect::DragSelection, ..none }),
            MouseKind::LeftUp => (*s, MainMouseEffect { diff: DiffEffect::ReleaseSelection, ..none }),
            MouseKind::ScrollUp => if in_diff {
                let diff = if ev.shift {
                    DiffEffect::ScrollLeft(4)
                } else {
                    DiffEffect::ScrollUp(3)
                };
                (*s, MainMouseEffect { drop_selection: true, diff, ..none })
            } else {
                (*s, MainMouseEffect { drop_selection: true, move_selection: Some(false), ..none })
            },
            MouseKind::ScrollDown => if in_diff {
                let diff = if ev.shift {
                    DiffEffect::ScrollRight(4)
                } else {
                    DiffEffect::ScrollDown(3)
                };
                (*s, MainMouseEffect { drop_selection: true, diff, ..none })
            } else {
                (*s, MainMouseEffect { drop_selection: true, move_selection: Some(true), ..none })
            },
            MouseKind::ScrollLeft => if in_diff {
                (*s, MainMouseEffect { diff: DiffEffect::ScrollLeft(4), ..none })
            } else {
                (*s, none)
            },
            MouseKind::ScrollRight => if in_diff {
                (*s, MainMouseEffect { diff: DiffEffect::ScrollRight(4), ..none })
            } else {
                (*s, none)
            },
            MouseKind::Other => (*s, none),
        }
    }
}

/// The selection a press at column `col`, row `row` starts in the diff laid out as
/// `layout`: empty, still being dragged, in the panel under the column; none when the
/// column is in no panel.
pub fn start_selection(layout: &DiffPanelLayout, col: u16, row: u16) -> (r: Option<TextSelection>)
    ensures
        match panel_at(*layout, col) {
            Some(p) => r matches Some(t) && t.panel == p && t.start_col == col && t.end_col == col && t.start_row
                == row && t.end_row == row && t.dragging && t.text@.len() == 0,
            None => r is None,
        },
{
    match layout.panel_at_x(col) {
        Some(panel) => Some(
            TextSelection {
                panel,
                start_col: col,
                start_row: row,
                end_col: col,
                end_row: row,
                dragging: true,
                text: String::new(),
            },
        ),
        None => None,
    }
}

/// What releasing the mouse makes of a selection.
#[derive(Debug, Clone, Copy, PartialEq, Eq, Structural)]
pub enum Release {
    /// A dragged range: it stays selected.
    Range,
    /// A single click on a file that exists: it stays as a click, which can open the file.
    Click,
    /// A single click on a file that does not exist: the selection goes.
    Drop,
}

/// What releasing the mouse makes of `sel`: a range when its two ends differ, else a
/// click when the file exists in the working tree, else nothing.
pub fn release_selection(sel: &TextSelection, file_on_disk: bool) -> (r: Release)
    ensures
        r == (if sel.start_col != sel.end_col || sel.start_row != sel.end_row {
            Release::Range
        } else if file_on_disk {
            Release::Click
        } else {
            Release::Drop
        }),
{
    if sel.start_col != sel.end_col || sel.start_row != sel.end_row {
        Release::Range
    } else if file_on_disk {
        Release::Click
    } else {
        Release::Drop
    }
}

} // verus!

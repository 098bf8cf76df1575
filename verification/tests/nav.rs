use lazygitrs::diff_keys::{diff_panel_key_action, toggled_side_view, DiffPanelAction, DiffPanelModes};
use lazygitrs::main_mouse::{main_mouse, release_selection, start_selection, MainMouse, MainRegions, PanelClick, Release};
use lazygitrs::nav::{apply_panel_click, wheel_selection};
use lazygitrs::pager::side_by_side::{DiffPanel, DiffPanelLayout, DiffSideView};
use lazygitrs::diff_request::{diff_key, diff_plan, should_load_diff, DiffInputs, DiffKey, DiffPlan, TreeRow};
use lazygitrs::popup::{popup_key_action, PopupKeyAction, PopupKind};
use lazygitrs::compare_mouse::{
    compare_mouse, focus_after_confirm, CompareFocus, CompareMouse, CompareRegions, DiffEffect, MouseInput,
    MouseKind, Selector, WheelPopup,
};
use lazygitrs::help::{
    compare_help_sections, diff_help_sections, help_sections, BranchesKeybindings, CommitsKeybindings,
    FilesKeybindings, KeybindingConfig, StashKeybindings, UniversalKeybindings,
};
use lazygitrs::nav::{
    apply_nav, key_action, route_key, ContextId, Key, KeyAction, KeyCode, KeyModes, KeyRoute, Navigation,
    UniversalKeys,
};
use lazygitrs::pager::side_by_side::PanelRect;

fn plain(c: char) -> Key {
    Key { code: KeyCode::Char(c), ctrl: false, alt: false, shift: false }
}

fn ctrl(c: char) -> Key {
    Key { code: KeyCode::Char(c), ctrl: true, alt: false, shift: false }
}

fn code(c: KeyCode) -> Key {
    Key { code: c, ctrl: false, alt: false, shift: false }
}

fn keys() -> UniversalKeys {
    UniversalKeys {
        quit: Some(plain('q')),
        quit_alt1: Some(ctrl('c')),
        toggle_panel: Some(code(KeyCode::Tab)),
        prev_block: Some(code(KeyCode::Left)),
        prev_block_alt: Some(plain('h')),
        next_block: Some(code(KeyCode::Right)),
        next_block_alt: Some(plain('l')),
        prev_item: Some(code(KeyCode::Up)),
        prev_item_alt: Some(plain('k')),
        next_item: Some(code(KeyCode::Down)),
        next_item_alt: Some(plain('j')),
        goto_top: Some(plain('<')),
        goto_bottom: Some(plain('>')),
        scroll_down_main_alt1: Some(plain('J')),
        scroll_up_main_alt1: Some(plain('K')),
        scroll_left: Some(plain('H')),
        scroll_right: Some(plain('L')),
        refresh: Some(plain('R')),
        create_rebase_options_menu: Some(plain('m')),
        push_files: Some(plain('P')),
        pull_files: Some(plain('p')),
        next_screen_mode: Some(plain('+')),
        prev_screen_mode: Some(plain('_')),
        undo: Some(plain('z')),
        redo: Some(ctrl('z')),
        create_patch_options_menu: Some(ctrl('p')),
        start_search: Some(plain('/')),
        next_match: Some(plain('n')),
        prev_match: Some(plain('N')),
    }
}

fn modes() -> KeyModes {
    KeyModes {
        popup_open: false,
        search_input: false,
        rebase_mode: false,
        diff_mode: false,
        diff_focused: false,
        search_shown: false,
        operation_in_progress: false,
        patch_menu_allowed: false,
        diff_panel: diff_modes(),
    }
}

#[test]
fn universal_keys_map_to_actions() {
    let kb = keys();
    let m = modes();
    assert_eq!(key_action(&kb, plain('q'), &m), KeyAction::Quit);
    assert_eq!(key_action(&kb, ctrl('c'), &m), KeyAction::Quit);
    assert_eq!(key_action(&kb, plain('3'), &m), KeyAction::JumpToWindow(3));
    assert_eq!(key_action(&kb, plain('6'), &m), KeyAction::PanelKey);
    assert_eq!(key_action(&kb, code(KeyCode::Tab), &m), KeyAction::NextWindow);
    assert_eq!(key_action(&kb, plain('h'), &m), KeyAction::PrevWindow);
    assert_eq!(key_action(&kb, plain('j'), &m), KeyAction::NextItem);
    assert_eq!(key_action(&kb, code(KeyCode::PageDown), &m), KeyAction::ScrollMainDown(20));
    assert_eq!(key_action(&kb, plain('J'), &m), KeyAction::ScrollMainDown(1));
    assert_eq!(key_action(&kb, plain('}'), &m), KeyAction::NextHunk);
    assert_eq!(key_action(&kb, plain('W'), &m), KeyAction::CompareMode);
    assert_eq!(key_action(&kb, plain('?'), &m), KeyAction::Help);
    assert_eq!(key_action(&kb, plain('I'), &m), KeyAction::RebasePicker);
    assert_eq!(key_action(&kb, plain('x'), &m), KeyAction::PanelKey);
}

#[test]
fn state_dependent_keys_fall_through() {
    let kb = keys();
    let m = modes();
    // No rebase or merge in progress: the rebase options key is left to the panel.
    assert_eq!(key_action(&kb, plain('m'), &m), KeyAction::PanelKey);
    assert_eq!(key_action(&kb, plain('m'), &KeyModes { operation_in_progress: true, ..m }), KeyAction::RebaseOptions);
    assert_eq!(key_action(&kb, ctrl('p'), &m), KeyAction::PanelKey);
    assert_eq!(key_action(&kb, ctrl('p'), &KeyModes { patch_menu_allowed: true, ..m }), KeyAction::PatchOptions);
    // Esc and n only act on shown search results.
    assert_eq!(key_action(&kb, code(KeyCode::Esc), &m), KeyAction::PanelKey);
    assert_eq!(key_action(&kb, plain('n'), &m), KeyAction::PanelKey);
    let searching = KeyModes { search_shown: true, ..m };
    assert_eq!(key_action(&kb, code(KeyCode::Esc), &searching), KeyAction::ClearSearch);
    assert_eq!(key_action(&kb, plain('n'), &searching), KeyAction::NextMatch);
    assert_eq!(key_action(&kb, plain('N'), &searching), KeyAction::PrevMatch);
}

#[test]
fn keys_go_to_the_topmost_layer() {
    let kb = keys();
    let m = modes();
    assert_eq!(route_key(&kb, plain('q'), &KeyModes { popup_open: true, diff_mode: true, ..m }), KeyRoute::Popup);
    assert_eq!(route_key(&kb, plain('q'), &KeyModes { search_input: true, ..m }), KeyRoute::SearchInput);
    assert_eq!(route_key(&kb, plain('q'), &KeyModes { rebase_mode: true, diff_mode: true, ..m }), KeyRoute::RebaseMode);
    assert_eq!(route_key(&kb, plain('q'), &KeyModes { diff_mode: true, diff_focused: true, ..m }), KeyRoute::DiffMode);
    assert_eq!(route_key(&kb, plain('q'), &KeyModes { diff_focused: true, ..m }), KeyRoute::DiffPanel(DiffPanelAction::Quit));
    assert_eq!(route_key(&kb, plain(']'), &KeyModes { diff_focused: true, ..m }), KeyRoute::DiffPanel(DiffPanelAction::SideView(DiffSideView::NewOnly)));
    assert_eq!(route_key(&kb, plain('q'), &m), KeyRoute::Side(KeyAction::Quit));
}

fn nav_at(active: ContextId) -> Navigation {
    Navigation { active, tabs: vec![0, 0, 0, 0, 0], selected: vec![2; 15] }
}

#[test]
fn number_keys_jump_and_cycle_tabs() {
    let mut nav = Navigation::new();
    assert_eq!(nav.active, ContextId::Files);
    apply_nav(&mut nav, KeyAction::JumpToWindow(4), 10);
    assert_eq!(nav.active, ContextId::Commits);
    // Pressing the active panel's number again moves to its next tab, round.
    apply_nav(&mut nav, KeyAction::JumpToWindow(4), 10);
    assert_eq!(nav.active, ContextId::Reflog);
    apply_nav(&mut nav, KeyAction::JumpToWindow(4), 10);
    assert_eq!(nav.active, ContextId::Commits);
    apply_nav(&mut nav, KeyAction::JumpToWindow(4), 10);
    // The commits panel remembers its tab.
    apply_nav(&mut nav, KeyAction::JumpToWindow(2), 10);
    assert_eq!(nav.active, ContextId::Files);
    apply_nav(&mut nav, KeyAction::JumpToWindow(4), 10);
    assert_eq!(nav.active, ContextId::Reflog);
    assert_eq!(nav.tabs, vec![0, 0, 0, 1, 0]);
}

#[test]
fn number_keys_leave_sub_lists_one_level() {
    let mut nav = nav_at(ContextId::CommitFiles);
    apply_nav(&mut nav, KeyAction::JumpToWindow(4), 10);
    assert_eq!(nav.active, ContextId::Commits);
    // The commits list kept its selection while its files were shown.
    assert_eq!(nav.selected_active(), 2);

    let mut nav = nav_at(ContextId::BranchCommitFiles);
    apply_nav(&mut nav, KeyAction::JumpToWindow(3), 10);
    assert_eq!(nav.active, ContextId::BranchCommits);
    apply_nav(&mut nav, KeyAction::JumpToWindow(3), 10);
    assert_eq!(nav.active, ContextId::Branches);

    let mut nav = nav_at(ContextId::StashFiles);
    apply_nav(&mut nav, KeyAction::JumpToWindow(5), 10);
    assert_eq!(nav.active, ContextId::Stash);

    let mut nav = nav_at(ContextId::RemoteBranches);
    apply_nav(&mut nav, KeyAction::JumpToWindow(3), 10);
    assert_eq!(nav.active, ContextId::Remotes);

    // Another panel's number leaves the sub-list for that panel.
    let mut nav = nav_at(ContextId::CommitFiles);
    apply_nav(&mut nav, KeyAction::JumpToWindow(1), 10);
    assert_eq!(nav.active, ContextId::Status);
}

#[test]
fn next_and_previous_panel_wrap_round() {
    let mut nav = nav_at(ContextId::Files);
    apply_nav(&mut nav, KeyAction::NextWindow, 10);
    assert_eq!(nav.active, ContextId::Branches);
    apply_nav(&mut nav, KeyAction::PrevWindow, 10);
    assert_eq!(nav.active, ContextId::Files);
    let mut nav = nav_at(ContextId::Stash);
    apply_nav(&mut nav, KeyAction::NextWindow, 10);
    assert_eq!(nav.active, ContextId::Status);
    apply_nav(&mut nav, KeyAction::PrevWindow, 10);
    assert_eq!(nav.active, ContextId::Stash);
    // From a sub-list the move starts at its parent's panel.
    let mut nav = nav_at(ContextId::CommitFiles);
    apply_nav(&mut nav, KeyAction::NextWindow, 10);
    assert_eq!(nav.active, ContextId::Stash);
}

#[test]
fn selection_moves_within_the_list() {
    let mut nav = nav_at(ContextId::Files);
    apply_nav(&mut nav, KeyAction::NextItem, 4);
    assert_eq!(nav.selected_active(), 3);
    apply_nav(&mut nav, KeyAction::NextItem, 4);
    assert_eq!(nav.selected_active(), 3);
    apply_nav(&mut nav, KeyAction::GotoTop, 4);
    assert_eq!(nav.selected_active(), 0);
    apply_nav(&mut nav, KeyAction::PrevItem, 4);
    assert_eq!(nav.selected_active(), 0);
    apply_nav(&mut nav, KeyAction::GotoBottom, 4);
    assert_eq!(nav.selected_active(), 3);
    apply_nav(&mut nav, KeyAction::GotoBottom, 0);
    assert_eq!(nav.selected_active(), 3);
    apply_nav(&mut nav, KeyAction::Help, 4);
    assert_eq!(nav.selected_active(), 3);
    assert_eq!(nav.active, ContextId::Files);
    // Each list keeps its own selection.
    apply_nav(&mut nav, KeyAction::NextWindow, 4);
    assert_eq!(nav.active, ContextId::Branches);
    assert_eq!(nav.selected_active(), 2);
    apply_nav(&mut nav, KeyAction::GotoTop, 4);
    apply_nav(&mut nav, KeyAction::PrevWindow, 4);
    assert_eq!(nav.selected_active(), 3);
}

fn s(x: &str) -> String {
    x.to_string()
}

fn bindings() -> KeybindingConfig {
    KeybindingConfig {
        universal: UniversalKeybindings {
            quit: s("q"),
            quit_alt1: s("<c-c>"),
            return_key: s("<esc>"),
            toggle_panel: s("<tab>"),
            prev_item: s("<up>"),
            next_item: s("<down>"),
            prev_page: s(","),
            next_page: s("."),
            goto_top: s("<"),
            goto_bottom: s(">"),
            prev_block: s("<left>"),
            next_block: s("<right>"),
            start_search: s("/"),
            next_match: s("n"),
            prev_match: s("N"),
            scroll_up_main_alt1: s("K"),
            scroll_down_main_alt1: s("J"),
            scroll_left: s("H"),
            scroll_right: s("L"),
            undo: s("z"),
            redo: s("<c-z>"),
            refresh: s("R"),
            push_files: s("P"),
            pull_files: s("p"),
            next_screen_mode: s("+"),
            prev_screen_mode: s("_"),
            create_rebase_options_menu: s("m"),
            create_patch_options_menu: s("<c-p>"),
            edit: s("e"),
            open_file: s("o"),
        },
        files: FilesKeybindings {
            commit_changes: s("c"),
            amend_last_commit: s("A"),
            commit_changes_with_editor: s("C"),
            toggle_staged_all: s("a"),
            stash_all_changes: s("s"),
            view_stash_options: s("S"),
            toggle_tree_view: s("`"),
            fetch: s("f"),
            ignore_file: s("i"),
        },
        branches: BranchesKeybindings {
            merge_into_current_branch: s("M"),
            rebase_branch: s("r"),
            rename_branch: s("R"),
            fast_forward: s("f"),
            set_upstream: s("u"),
            create_pull_request: s("o"),
        },
        commits: CommitsKeybindings {
            squash_down: s("s"),
            rename_commit: s("r"),
            view_reset_options: s("g"),
            mark_commit_as_fixup: s("f"),
            create_fixup_commit: s("F"),
            squash_above_commits: s("S"),
            move_up_commit: s("<c-k>"),
            move_down_commit: s("<c-j>"),
            amend_to_commit: s("A"),
            pick_commit: s("p"),
            revert_commit: s("t"),
            cherry_pick_copy: s("C"),
            paste_commits: s("V"),
            tag_commit: s("T"),
            checkout_commit: s("<space>"),
            view_bisect_options: s("b"),
            interactive_rebase: s("i"),
            open_log_menu: s("<c-l>"),
        },
        stash: StashKeybindings { pop_stash: s("g"), rename_stash: s("r") },
    }
}

#[test]
fn help_lists_the_active_panel_then_universal_keys() {
    let kb = bindings();
    let r = help_sections(&kb, ContextId::Files);
    assert_eq!(r.len(), 2);
    assert_eq!(r[0].title, "Files");
    assert_eq!(r[0].entries.len(), 15);
    assert_eq!(r[0].entries[2].key, "c");
    assert_eq!(r[0].entries[2].description, "Commit");
    assert_eq!(r[1].title, "Universal");
    assert_eq!(r[1].entries.len(), 34);
    assert_eq!(r[1].entries[0].key, "q");
    assert_eq!(r[1].entries[0].description, "Quit");
    assert_eq!(r[1].entries[33].key, "?");

    let r = help_sections(&kb, ContextId::BranchCommitFiles);
    assert_eq!(r[0].title, "Branch Commits");
    assert_eq!(r[0].entries[1].description, "Back to branches");

    let r = help_sections(&kb, ContextId::Stash);
    assert_eq!(r[0].entries[2].key, "g");
    assert_eq!(r[0].entries[2].description, "Pop stash");
}

#[test]
fn diff_and_compare_help() {
    let r = diff_help_sections();
    assert_eq!(r.len(), 1);
    assert_eq!(r[0].title, "Diff Viewer");
    assert_eq!(r[0].entries.len(), 18);
    let r = compare_help_sections();
    assert_eq!(r.len(), 2);
    assert_eq!(r[0].entries[1].description, "Cycle focus (A → B → Files → Diff)");
    assert_eq!(r[1].entries.len(), 4);
}

fn rect(x: u16, y: u16, width: u16, height: u16) -> PanelRect {
    PanelRect { x, y, width, height }
}

fn regions() -> CompareRegions {
    CompareRegions {
        selector_a: rect(0, 0, 26, 3),
        selector_b: rect(0, 3, 26, 3),
        files: rect(0, 6, 26, 33),
        diff: rect(26, 0, 54, 39),
        height: 40,
    }
}

fn state() -> CompareMouse {
    CompareMouse {
        popup: WheelPopup::NoPopup,
        focus: CompareFocus::SelectorA,
        editing: None,
        result_count: 0,
        dropdown_scroll: 0,
        result_selected: 0,
        file_count: 5,
        file_selected: 0,
        diff_empty: false,
    }
}

fn ev(kind: MouseKind, column: u16, row: u16) -> MouseInput {
    MouseInput { kind, column, row, shift: false }
}

#[test]
fn compare_view_clicks_move_the_focus() {
    let l = regions();
    let (st, e) = compare_mouse(&state(), &l, ev(MouseKind::LeftDown, 5, 9));
    assert_eq!(st.focus, CompareFocus::CommitFiles);
    assert_eq!(st.file_selected, 2);
    assert!(e.refresh_diff);
    assert!(e.drop_selection);
    assert_eq!(e.diff, DiffEffect::Keep);
    // A row below the last file selects nothing.
    let (st, e) = compare_mouse(&state(), &l, ev(MouseKind::LeftDown, 5, 20));
    assert_eq!(st.file_selected, 0);
    assert!(!e.refresh_diff);
    let (st, e) = compare_mouse(&state(), &l, ev(MouseKind::LeftDown, 5, 4));
    assert_eq!(st.focus, CompareFocus::SelectorB);
    assert_eq!(e.edit, Some(Selector::B));
    let (st, e) = compare_mouse(&state(), &l, ev(MouseKind::LeftDown, 40, 10));
    assert_eq!(st.focus, CompareFocus::DiffExploration);
    assert_eq!(e.diff, DiffEffect::StartSelection);
    let empty = CompareMouse { diff_empty: true, ..state() };
    let (st, e) = compare_mouse(&empty, &l, ev(MouseKind::LeftDown, 40, 10));
    assert_eq!(st.focus, CompareFocus::DiffExploration);
    assert!(e.drop_selection);
    assert_eq!(e.diff, DiffEffect::Keep);
}

#[test]
fn compare_view_wheel() {
    let l = regions();
    let (st, e) = compare_mouse(&state(), &l, ev(MouseKind::ScrollDown, 5, 9));
    assert_eq!(st.file_selected, 3);
    assert!(e.refresh_diff);
    let (st, _) = compare_mouse(&st, &l, ev(MouseKind::ScrollDown, 5, 9));
    assert_eq!(st.file_selected, 4);
    let (st, _) = compare_mouse(&st, &l, ev(MouseKind::ScrollUp, 5, 9));
    assert_eq!(st.file_selected, 1);
    let (_, e) = compare_mouse(&state(), &l, ev(MouseKind::ScrollDown, 40, 9));
    assert_eq!(e.diff, DiffEffect::ScrollDown(3));
    assert!(e.drop_selection);
    let (_, e) = compare_mouse(&state(), &l, MouseInput { kind: MouseKind::ScrollUp, column: 40, row: 9, shift: true });
    assert_eq!(e.diff, DiffEffect::ScrollLeft(4));
    let popup = CompareMouse { popup: WheelPopup::Scrollable, ..state() };
    let (st, e) = compare_mouse(&popup, &l, ev(MouseKind::ScrollDown, 5, 9));
    assert_eq!(e.popup_wheel, Some(true));
    assert_eq!(st, popup);
}

#[test]
fn compare_view_dropdown() {
    let l = regions();
    let editing = CompareMouse { editing: Some(Selector::A), result_count: 20, dropdown_scroll: 4, ..state() };
    // The dropdown of selector A starts at row 3: its border, then the entries.
    let (st, e) = compare_mouse(&editing, &l, ev(MouseKind::LeftDown, 5, 6));
    assert_eq!(st.result_selected, 6);
    assert!(e.confirm_result);
    let (st, e) = compare_mouse(&editing, &l, ev(MouseKind::ScrollDown, 5, 6));
    assert_eq!(st.result_selected, 3);
    assert!(e.reveal_result);
    let (st, e) = compare_mouse(&editing, &l, ev(MouseKind::ScrollUp, 5, 6));
    assert_eq!(st.result_selected, 0);
    assert!(!e.reveal_result);
    assert_eq!(focus_after_confirm(true, false), (CompareFocus::CommitFiles, None));
    assert_eq!(focus_after_confirm(false, true), (CompareFocus::SelectorA, Some(Selector::A)));
    assert_eq!(focus_after_confirm(false, false), (CompareFocus::SelectorB, Some(Selector::B)));
}

#[test]
fn popup_keys() {
    assert_eq!(popup_key_action(PopupKind::Confirm, plain('y'), false), PopupKeyAction::Submit);
    assert_eq!(popup_key_action(PopupKind::Confirm, plain('n'), false), PopupKeyAction::Close);
    assert_eq!(popup_key_action(PopupKind::Message, plain('x'), false), PopupKeyAction::Close);
    assert_eq!(popup_key_action(PopupKind::Menu, plain('j'), false), PopupKeyAction::MenuNext);
    assert_eq!(popup_key_action(PopupKind::Menu, plain('c'), false), PopupKeyAction::MenuShortcut('c'));
    assert_eq!(popup_key_action(PopupKind::Menu, code(KeyCode::Esc), false), PopupKeyAction::MenuCancel);
    let commit = PopupKind::Input { is_commit: true, confirm_focused: false };
    assert_eq!(popup_key_action(commit, code(KeyCode::Enter), false), PopupKeyAction::TypeText);
    assert_eq!(popup_key_action(commit, ctrl('s'), false), PopupKeyAction::Submit);
    assert_eq!(popup_key_action(commit, code(KeyCode::Up), true), PopupKeyAction::History(true));
    assert_eq!(popup_key_action(commit, code(KeyCode::Up), false), PopupKeyAction::TypeText);
    assert_eq!(popup_key_action(commit, ctrl('o'), false), PopupKeyAction::CommitMenu);
    let button = PopupKind::Input { is_commit: true, confirm_focused: true };
    assert_eq!(popup_key_action(button, code(KeyCode::Enter), false), PopupKeyAction::Submit);
    assert_eq!(popup_key_action(button, plain('a'), false), PopupKeyAction::Ignore);
    let prompt = PopupKind::Input { is_commit: false, confirm_focused: false };
    assert_eq!(popup_key_action(prompt, code(KeyCode::Enter), false), PopupKeyAction::Submit);
    assert_eq!(popup_key_action(prompt, code(KeyCode::Tab), false), PopupKeyAction::TypeText);
    let body = PopupKind::CommitInput { summary_focused: false };
    assert_eq!(popup_key_action(body, code(KeyCode::Enter), true), PopupKeyAction::TypeText);
    assert_eq!(popup_key_action(body, code(KeyCode::Down), true), PopupKeyAction::TypeText);
    let summary = PopupKind::CommitInput { summary_focused: true };
    assert_eq!(popup_key_action(summary, code(KeyCode::Enter), true), PopupKeyAction::Submit);
    assert_eq!(popup_key_action(summary, code(KeyCode::Down), true), PopupKeyAction::History(false));
    assert_eq!(popup_key_action(PopupKind::Checklist, ctrl('a'), false), PopupKeyAction::ChecklistClearAll);
    assert_eq!(popup_key_action(PopupKind::Checklist, plain(' '), false), PopupKeyAction::ChecklistToggle);
    assert_eq!(popup_key_action(PopupKind::Checklist, plain('x'), false), PopupKeyAction::SearchType('x'));
    assert_eq!(popup_key_action(PopupKind::Loading, code(KeyCode::Esc), false), PopupKeyAction::Ignore);
    assert_eq!(popup_key_action(PopupKind::Help, code(KeyCode::Esc), false), PopupKeyAction::HelpKey);
}

#[test]
fn diff_reloads_only_for_a_new_selection() {
    assert_eq!(diff_key(true, true, 1, ContextId::Files, 2), None);
    assert_eq!(diff_key(false, true, 1, ContextId::Files, 2), Some(DiffKey::Compare(1)));
    let k = diff_key(false, false, 1, ContextId::Files, 2).unwrap();
    assert_eq!(k, DiffKey::Side(ContextId::Files, 2));
    assert!(should_load_diff(k, DiffKey::Nothing, false));
    assert!(!should_load_diff(k, k, false));
    assert!(should_load_diff(k, k, true));
    assert!(should_load_diff(k, DiffKey::Side(ContextId::Commits, 2), false));
}

fn inputs() -> DiffInputs {
    DiffInputs {
        files_len: 3,
        commits_len: 5,
        reflog_len: 0,
        stash_len: 1,
        branch_commits_len: 2,
        commit_files_len: 4,
        file_tree: false,
        file_row: None,
        commit_file_tree: false,
        commit_file_row: None,
    }
}

#[test]
fn each_list_names_its_diff() {
    let d = inputs();
    assert_eq!(diff_plan(ContextId::Files, 1, &d), DiffPlan::WorkingFile(1));
    assert_eq!(diff_plan(ContextId::Files, 3, &d), DiffPlan::Clear);
    assert_eq!(diff_plan(ContextId::Commits, 4, &d), DiffPlan::Entry(4));
    assert_eq!(diff_plan(ContextId::Commits, 5, &d), DiffPlan::Keep);
    assert_eq!(diff_plan(ContextId::Reflog, 0, &d), DiffPlan::Keep);
    assert_eq!(diff_plan(ContextId::Stash, 0, &d), DiffPlan::Entry(0));
    assert_eq!(diff_plan(ContextId::StashFiles, 2, &d), DiffPlan::CommitFile(2));
    assert_eq!(diff_plan(ContextId::Branches, 0, &d), DiffPlan::Keep);
    let dir = TreeRow { file_index: None, is_dir: true, has_children: true };
    let file = TreeRow { file_index: Some(2), is_dir: false, has_children: false };
    let tree = DiffInputs { file_tree: true, file_row: Some(dir), commit_file_tree: true, commit_file_row: Some(file), ..d };
    assert_eq!(diff_plan(ContextId::Files, 0, &tree), DiffPlan::WorkingDir(0));
    assert_eq!(diff_plan(ContextId::CommitFiles, 0, &tree), DiffPlan::CommitFile(2));
    let empty_dir = TreeRow { has_children: false, ..dir };
    let tree = DiffInputs { file_row: Some(empty_dir), commit_file_row: None, ..tree };
    assert_eq!(diff_plan(ContextId::Files, 0, &tree), DiffPlan::Clear);
    assert_eq!(diff_plan(ContextId::CommitFiles, 7, &tree), DiffPlan::Clear);
}

fn diff_modes() -> DiffPanelModes {
    DiffPanelModes {
        search_input: false,
        has_selection: false,
        selection_is_click: false,
        file_on_disk: true,
        search_shown: false,
        side_view: DiffSideView::Both,
    }
}

#[test]
fn side_view_toggles() {
    assert_eq!(toggled_side_view(DiffSideView::Both, true), DiffSideView::NewOnly);
    assert_eq!(toggled_side_view(DiffSideView::NewOnly, true), DiffSideView::Both);
    assert_eq!(toggled_side_view(DiffSideView::OldOnly, true), DiffSideView::NewOnly);
    assert_eq!(toggled_side_view(DiffSideView::Both, false), DiffSideView::OldOnly);
    assert_eq!(toggled_side_view(DiffSideView::OldOnly, false), DiffSideView::Both);
    assert_eq!(toggled_side_view(DiffSideView::NewOnly, false), DiffSideView::OldOnly);
}

#[test]
fn focused_diff_panel_keys() {
    let kb = keys();
    let m = diff_modes();
    assert_eq!(diff_panel_key_action(&kb, plain('j'), &m), DiffPanelAction::ScrollDown(1));
    assert_eq!(diff_panel_key_action(&kb, code(KeyCode::Up), &m), DiffPanelAction::ScrollUp(1));
    assert_eq!(diff_panel_key_action(&kb, plain('h'), &m), DiffPanelAction::ScrollLeft(4));
    assert_eq!(diff_panel_key_action(&kb, plain('L'), &m), DiffPanelAction::ScrollRight(4));
    assert_eq!(diff_panel_key_action(&kb, plain('}'), &m), DiffPanelAction::NextHunk);
    assert_eq!(diff_panel_key_action(&kb, plain('{'), &m), DiffPanelAction::PrevHunk);
    assert_eq!(diff_panel_key_action(&kb, plain(']'), &m), DiffPanelAction::SideView(DiffSideView::NewOnly));
    let new_only = DiffPanelModes { side_view: DiffSideView::NewOnly, ..m };
    assert_eq!(diff_panel_key_action(&kb, plain(']'), &new_only), DiffPanelAction::SideView(DiffSideView::Both));
    assert_eq!(diff_panel_key_action(&kb, plain('['), &new_only), DiffPanelAction::SideView(DiffSideView::OldOnly));
    assert_eq!(diff_panel_key_action(&kb, plain('z'), &m), DiffPanelAction::ToggleWrap);
    assert_eq!(diff_panel_key_action(&kb, code(KeyCode::PageDown), &m), DiffPanelAction::ScrollDown(20));
    assert_eq!(diff_panel_key_action(&kb, plain('g'), &m), DiffPanelAction::Top);
    assert_eq!(diff_panel_key_action(&kb, plain('G'), &m), DiffPanelAction::Bottom);
    assert_eq!(diff_panel_key_action(&kb, plain('2'), &m), DiffPanelAction::JumpToWindow(2));
    assert_eq!(diff_panel_key_action(&kb, plain('q'), &m), DiffPanelAction::Quit);
    assert_eq!(diff_panel_key_action(&kb, plain('?'), &m), DiffPanelAction::Help);
    assert_eq!(diff_panel_key_action(&kb, plain('+'), &m), DiffPanelAction::NextScreenMode);
    assert_eq!(diff_panel_key_action(&kb, plain('/'), &m), DiffPanelAction::Search);
    assert_eq!(diff_panel_key_action(&kb, code(KeyCode::Esc), &m), DiffPanelAction::Unfocus);
    assert_eq!(diff_panel_key_action(&kb, plain('x'), &m), DiffPanelAction::Ignore);
    // n is a plain key until a search has results.
    assert_eq!(diff_panel_key_action(&kb, plain('n'), &m), DiffPanelAction::Ignore);
    let found = DiffPanelModes { search_shown: true, ..m };
    assert_eq!(diff_panel_key_action(&kb, plain('n'), &found), DiffPanelAction::NextMatch);
    assert_eq!(diff_panel_key_action(&kb, code(KeyCode::Esc), &found), DiffPanelAction::ClearSearch);
}

#[test]
fn focused_diff_panel_selection_and_search_keys() {
    let kb = keys();
    let m = diff_modes();
    let typing = DiffPanelModes { search_input: true, ..m };
    assert_eq!(diff_panel_key_action(&kb, plain('q'), &typing), DiffPanelAction::SearchInput);
    assert_eq!(diff_panel_key_action(&kb, code(KeyCode::Enter), &typing), DiffPanelAction::SearchConfirm);
    assert_eq!(diff_panel_key_action(&kb, code(KeyCode::Esc), &typing), DiffPanelAction::SearchDismiss);
    let range = DiffPanelModes { has_selection: true, ..m };
    assert_eq!(diff_panel_key_action(&kb, plain('y'), &range), DiffPanelAction::CopySelection);
    assert_eq!(diff_panel_key_action(&kb, plain('e'), &range), DiffPanelAction::EditSelection);
    assert_eq!(diff_panel_key_action(&kb, code(KeyCode::Esc), &range), DiffPanelAction::DismissSelection);
    // Another key drops the range and still acts.
    assert_eq!(diff_panel_key_action(&kb, plain('j'), &range), DiffPanelAction::ScrollDown(1));
    let gone = DiffPanelModes { file_on_disk: false, ..range };
    assert_eq!(diff_panel_key_action(&kb, plain('e'), &gone), DiffPanelAction::Ignore);
    let click = DiffPanelModes { selection_is_click: true, ..range };
    assert_eq!(diff_panel_key_action(&kb, plain('y'), &click), DiffPanelAction::DismissSelection);
    assert_eq!(diff_panel_key_action(&kb, plain('j'), &click), DiffPanelAction::DismissSelection);
    assert_eq!(diff_panel_key_action(&kb, plain('e'), &click), DiffPanelAction::EditSelection);
}

fn main_state() -> MainMouse {
    MainMouse {
        mouse_events: true,
        rebase_mode: false,
        rebase_count: 0,
        rebase_selected: 0,
        compare_mode: false,
        popup: WheelPopup::NoPopup,
        diff_focused: false,
        full_screen: false,
        diff_empty: false,
    }
}

fn main_regions() -> MainRegions {
    MainRegions {
        main: rect(30, 0, 50, 39),
        sides: vec![rect(0, 0, 30, 3), rect(0, 3, 30, 12), rect(0, 15, 30, 8), rect(0, 23, 30, 8), rect(0, 31, 30, 8)],
    }
}

#[test]
fn normal_view_clicks() {
    let l = main_regions();
    let (st, e) = main_mouse(&main_state(), &l, ev(MouseKind::LeftDown, 40, 5));
    assert!(st.diff_focused);
    assert_eq!(e.diff, DiffEffect::StartSelection);
    let focused = MainMouse { diff_focused: true, ..main_state() };
    let (st, e) = main_mouse(&focused, &l, ev(MouseKind::LeftDown, 5, 17));
    assert!(!st.diff_focused);
    assert!(e.drop_selection);
    assert_eq!(e.click, Some(PanelClick { window: Some(3), rect: rect(0, 15, 30, 8), row: 17 }));
    // Full screen with the side panels focused: the main panel shows the active list.
    let full = MainMouse { full_screen: true, ..main_state() };
    let (_, e) = main_mouse(&full, &l, ev(MouseKind::LeftDown, 40, 5));
    assert_eq!(e.click, Some(PanelClick { window: None, rect: rect(30, 0, 50, 39), row: 5 }));
    assert_eq!(e.diff, DiffEffect::Keep);
    let off = MainMouse { mouse_events: false, ..main_state() };
    let (st, e) = main_mouse(&off, &l, ev(MouseKind::LeftDown, 40, 5));
    assert_eq!(st, off);
    assert_eq!(e.click, None);
}

#[test]
fn normal_view_wheel() {
    let l = main_regions();
    let (_, e) = main_mouse(&main_state(), &l, ev(MouseKind::ScrollDown, 40, 5));
    assert_eq!(e.diff, DiffEffect::ScrollDown(3));
    assert!(e.drop_selection);
    let (_, e) = main_mouse(&main_state(), &l, MouseInput { kind: MouseKind::ScrollDown, column: 40, row: 5, shift: true });
    assert_eq!(e.diff, DiffEffect::ScrollRight(4));
    let (_, e) = main_mouse(&main_state(), &l, ev(MouseKind::ScrollUp, 5, 5));
    assert_eq!(e.move_selection, Some(false));
    let rebase = MainMouse { rebase_mode: true, rebase_count: 3, rebase_selected: 1, ..main_state() };
    let (st, _) = main_mouse(&rebase, &l, ev(MouseKind::ScrollDown, 5, 5));
    assert_eq!(st.rebase_selected, 2);
    let (st, _) = main_mouse(&st, &l, ev(MouseKind::ScrollDown, 5, 5));
    assert_eq!(st.rebase_selected, 2);
    let popup = MainMouse { popup: WheelPopup::Scrollable, ..main_state() };
    let (_, e) = main_mouse(&popup, &l, ev(MouseKind::ScrollUp, 40, 5));
    assert_eq!(e.popup_wheel, Some(false));
    let compare = MainMouse { compare_mode: true, ..main_state() };
    let (_, e) = main_mouse(&compare, &l, ev(MouseKind::ScrollUp, 40, 5));
    assert!(e.to_compare_view);
}

#[test]
fn clicks_and_wheel_move_list_selections() {
    let lens = vec![1, 4, 0, 0, 20, 0, 0, 0, 0, 0, 30, 0, 0, 0, 0];
    let mut nav = Navigation::new();
    // Row 19 of the branches panel (top 15): its fourth entry.
    apply_panel_click(&mut nav, PanelClick { window: Some(3), rect: rect(0, 15, 30, 8), row: 19 }, &lens);
    assert_eq!(nav.active, ContextId::Branches);
    assert_eq!(nav.selected_active(), 3);
    // A row past the list's end selects nothing.
    apply_panel_click(&mut nav, PanelClick { window: Some(2), rect: rect(0, 3, 30, 12), row: 12 }, &lens);
    assert_eq!(nav.active, ContextId::Files);
    assert_eq!(nav.selected_active(), 0);
    wheel_selection(&mut nav, true, 4);
    assert_eq!(nav.selected_active(), 3);
    wheel_selection(&mut nav, false, 4);
    assert_eq!(nav.selected_active(), 0);
}

#[test]
fn selections_start_and_end() {
    let layout = DiffPanelLayout {
        is_new_file: false,
        old_content_x: 6,
        old_content_end_x: 40,
        new_content_x: 46,
        new_content_end_x: 80,
        inner_y: 1,
        inner_end_y: 30,
    };
    let sel = start_selection(&layout, 50, 4).unwrap();
    assert_eq!(sel.panel, DiffPanel::New);
    assert!(sel.dragging);
    assert_eq!((sel.start_col, sel.start_row, sel.end_col, sel.end_row), (50, 4, 50, 4));
    assert!(start_selection(&layout, 40, 4).is_none());
    assert_eq!(release_selection(&sel, true), Release::Click);
    assert_eq!(release_selection(&sel, false), Release::Drop);
    let mut range = sel.clone();
    range.end_col = 60;
    assert_eq!(release_selection(&range, false), Release::Range);
}

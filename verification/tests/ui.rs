use lazygitrs::model::{File, FileChangeStatus, FileStatus};
use lazygitrs::pager::side_by_side::PanelRect;
use lazygitrs::ui::{
    clicked_list_index, commit_file_status_icon, file_status_icon, file_status_style, rect_contains, should_use_portrait, split_commit_message,
    CommitInputFocus, FileStatusStyle, ScreenMode,
};

#[test]
fn commit_message_splits_into_summary_and_body() {
    assert_eq!(split_commit_message("Fix it\n\nBecause."), ("Fix it".to_string(), "Because.".to_string()));
    assert_eq!(split_commit_message("One line"), ("One line".to_string(), String::new()));
    assert_eq!(split_commit_message("A\nB\n\nC"), ("A".to_string(), "C".to_string()));
    assert_eq!(split_commit_message("Fix bug\nsecond line\n\nDetails"), ("Fix bug".to_string(), "Details".to_string()));
    assert_eq!(split_commit_message("A\nB"), ("A".to_string(), String::new()));
    assert_eq!(split_commit_message("A\n\n\n\nC\n\nD"), ("A".to_string(), "C\n\nD".to_string()));
    assert_eq!(split_commit_message(""), (String::new(), String::new()));
}

#[test]
fn screen_modes_cycle() {
    assert_eq!(ScreenMode::Normal.next(), ScreenMode::Half);
    assert_eq!(ScreenMode::Half.next(), ScreenMode::Full);
    assert_eq!(ScreenMode::Full.next(), ScreenMode::Normal);
    for m in [ScreenMode::Normal, ScreenMode::Half, ScreenMode::Full] {
        assert_eq!(m.next().prev(), m);
        assert_eq!(m.next().next().next(), m);
    }
    assert_eq!(CommitInputFocus::Summary.toggled(), CommitInputFocus::Body);
    assert_eq!(CommitInputFocus::Body.toggled(), CommitInputFocus::Summary);
}

#[test]
fn portrait_layout_on_tall_narrow_terminals() {
    assert!(should_use_portrait(84, 46, ScreenMode::Normal));
    assert!(!should_use_portrait(85, 46, ScreenMode::Normal));
    assert!(!should_use_portrait(84, 45, ScreenMode::Normal));
    assert!(!should_use_portrait(80, 60, ScreenMode::Half));
}

#[test]
fn rectangles_contain_their_cells() {
    let r = PanelRect { x: 2, y: 3, width: 4, height: 2 };
    assert!(rect_contains(r, 2, 3));
    assert!(rect_contains(r, 5, 4));
    assert!(!rect_contains(r, 6, 4));
    assert!(!rect_contains(r, 2, 5));
}

fn file(short: &str, staged: bool, unstaged: bool, git_tracked: bool, conflicts: bool) -> File {
    File {
        name: "f".to_string(),
        display_name: "f".to_string(),
        status: FileStatus::Modified,
        has_staged_changes: staged,
        has_unstaged_changes: unstaged,
        git_tracked,
        added: false,
        deleted: false,
        has_merge_conflicts: conflicts,
        short_status: short.to_string(),
    }
}

#[test]
fn file_statuses_are_shown() {
    assert_eq!(file_status_icon("MM"), "MM");
    assert_eq!(file_status_icon("??"), "??");
    assert_eq!(file_status_icon("XY"), "  ");
    assert_eq!(file_status_style(&file("UU", false, true, true, true)), FileStatusStyle::Conflicted);
    assert_eq!(file_status_style(&file("M ", true, false, true, false)), FileStatusStyle::Staged);
    assert_eq!(file_status_style(&file("??", false, true, false, false)), FileStatusStyle::Untracked);
    assert_eq!(file_status_style(&file("MM", true, true, true, false)), FileStatusStyle::Unstaged);
    assert_eq!(commit_file_status_icon(FileChangeStatus::Renamed), "R ");
    assert_eq!(commit_file_status_icon(FileChangeStatus::Unmerged), "U ");
}

#[test]
fn clicks_pick_the_list_entry_under_them() {
    let panel = PanelRect { x: 0, y: 2, width: 30, height: 10 };
    assert_eq!(clicked_list_index(panel, 3, 0, 20), Some(0));
    assert_eq!(clicked_list_index(panel, 5, 0, 20), Some(2));
    assert_eq!(clicked_list_index(panel, 5, 10, 20), Some(5));
    assert_eq!(clicked_list_index(panel, 9, 0, 4), None);
    assert_eq!(clicked_list_index(panel, 1, 0, 4), Some(0));
}

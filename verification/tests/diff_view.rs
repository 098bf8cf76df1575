use lazygitrs::pager::side_by_side::{
    extract_filename_from_diff_header, parse_multi_file_diff, parse_unified_diff, DiffPanel, DiffPanelLayout, DiffSideView,
    DiffViewState, PanelRect, TextSelection,
};
use lazygitrs::pager::ChangeType;

const TWO_FILES: &str = "diff --git a/x.rs b/x.rs\nindex 1..2\n--- a/x.rs\n+++ b/x.rs\n@@ -1 +1 @@\n-old\n+new\ndiff --git a/y.rs b/y.rs\n@@ -1 +1,2 @@\n keep\n+added\n";

#[test]
fn header_file_name_is_the_new_name() {
    let chars: Vec<char> = "diff --git a/src/a.rs b/src/b.rs".chars().collect();
    let name: String = extract_filename_from_diff_header(&chars).into_iter().collect();
    assert_eq!(name, "src/b.rs");
}

#[test]
fn unified_diff_gives_old_and_new_text() {
    let (old, new) = parse_unified_diff("diff --git a/f b/f\n--- a/f\n+++ b/f\n@@ -1,3 +1,3 @@\n a\n-b\n+B\n c\n\\ No newline at end of file\n");
    assert_eq!(old, "a\nb\nc\n\\ No newline at end of file");
    assert_eq!(new, "a\nB\nc\n\\ No newline at end of file");
    assert_eq!(parse_unified_diff("no hunks here\n"), (String::new(), String::new()));
}

#[test]
fn multi_file_diff_splits_per_file() {
    let secs = parse_multi_file_diff(TWO_FILES);
    assert_eq!(secs.len(), 2);
    assert_eq!(secs[0].0, "x.rs");
    assert_eq!(secs[0].1, "index 1..2\n--- a/x.rs\n+++ b/x.rs\n@@ -1 +1 @@\n-old\n+new");
    assert_eq!(secs[1].0, "y.rs");
    assert_eq!(secs[1].1, "@@ -1 +1,2 @@\n keep\n+added");
    assert!(parse_multi_file_diff("").is_empty());
}

#[test]
fn new_view_is_empty() {
    let v = DiffViewState::new();
    assert!(v.is_empty());
    assert_eq!(v.tab_width, 4);
    assert_eq!(v.side_view, DiffSideView::Both);
}

#[test]
fn loading_a_file_shows_its_rows_and_hunks() {
    let mut v = DiffViewState::new();
    v.load("f.rs", "a\nb\nc\nd\ne\n", "a\nB\nc\nd\nE\n");
    assert_eq!(v.filename, "f.rs");
    assert_eq!(v.lines.len(), 5);
    assert_eq!(v.hunk_starts, vec![1, 4]);
    assert_eq!(v.section_count, 1);
    v.next_hunk();
    assert_eq!(v.scroll_offset, 1);
    v.next_hunk();
    assert_eq!(v.scroll_offset, 4);
    v.next_hunk();
    assert_eq!(v.scroll_offset, 4);
    v.prev_hunk();
    assert_eq!(v.scroll_offset, 1);
    v.prev_hunk();
    assert_eq!(v.scroll_offset, 1);
}

#[test]
fn scrolling_stops_at_the_ends() {
    let mut v = DiffViewState::new();
    v.load("f.rs", "1\n2\n3\n", "1\n2\n3\n");
    v.scroll_down(10);
    assert_eq!(v.scroll_offset, 2);
    v.scroll_up(1);
    assert_eq!(v.scroll_offset, 1);
    v.scroll_up(5);
    assert_eq!(v.scroll_offset, 0);
    v.scroll_right(3);
    v.scroll_left(1);
    assert_eq!(v.horizontal_scroll, 2);
    v.scroll_left(9);
    assert_eq!(v.horizontal_scroll, 0);
}

#[test]
fn reloading_the_same_file_keeps_the_position() {
    let mut v = DiffViewState::new();
    v.load("f.rs", "1\n2\n3\n4\n", "1\n2\n3\n4\n");
    v.scroll_down(3);
    v.load("f.rs", "1\n2\n", "1\n2\n");
    assert_eq!(v.scroll_offset, 1);
    v.load("g.rs", "1\n2\n", "1\n2\n");
    assert_eq!(v.scroll_offset, 0);
}

#[test]
fn multi_file_output_gets_sections_with_headers() {
    let mut v = DiffViewState::new();
    v.load_from_diff_output("changes", TWO_FILES);
    assert_eq!(v.filename, "changes (2 files)");
    assert_eq!(v.section_count, 2);
    assert!(v.old_content.is_empty());
    let headers: Vec<Option<String>> = v.lines.iter().map(|l| l.file_header.clone()).collect();
    assert_eq!(headers, vec![Some("x.rs".to_string()), None, Some("y.rs".to_string()), None, None]);
    let sections: Vec<usize> = v.lines.iter().map(|l| l.section_index).collect();
    assert_eq!(sections, vec![0, 0, 1, 1, 1]);
    assert_eq!(v.lines[1].change_type, ChangeType::Modified);
    assert_eq!(v.lines[4].change_type, ChangeType::Insert);
}

#[test]
fn single_file_output_uses_the_header_name() {
    let mut v = DiffViewState::new();
    v.load_from_diff_output("fallback", "diff --git a/f.rs b/f.rs\n@@ -1 +1 @@\n-x\n+y\n");
    assert_eq!(v.filename, "f.rs");
    assert_eq!(v.old_content, "x");
    assert_eq!(v.new_content, "y");
    assert_eq!(v.lines.len(), 1);
    let mut w = DiffViewState::new();
    w.load_from_diff_output("fallback", "@@ -1 +1 @@\n-x\n+y\n");
    assert_eq!(w.filename, "fallback");
}

#[test]
fn search_finds_every_occurrence_and_navigates() {
    let mut v = DiffViewState::new();
    v.load("f.rs", "Foo foo\nbar\n", "foo\nbar\n");
    v.start_search();
    assert!(v.search_active);
    v.search_query = "FOO".to_string();
    v.update_search();
    let found: Vec<(usize, DiffPanel, usize)> = v.search_matches.iter().map(|m| (m.line_idx, m.panel, m.col)).collect();
    assert_eq!(found, vec![(0, DiffPanel::Old, 0), (0, DiffPanel::Old, 4), (0, DiffPanel::New, 0)]);
    v.next_search_match();
    assert_eq!(v.search_match_idx, 1);
    v.next_search_match();
    v.next_search_match();
    assert_eq!(v.search_match_idx, 0);
    v.prev_search_match();
    assert_eq!(v.search_match_idx, 2);
    v.dismiss_search();
    assert!(!v.search_active);
    assert_eq!(v.search_matches.len(), 3);
    v.clear_search();
    assert!(v.search_matches.is_empty());
    assert!(v.search_query.is_empty());
}

#[test]
fn search_that_would_split_a_character_is_refused() {
    let mut v = DiffViewState::new();
    v.load("f.rs", "é\n", "é\n");
    v.search_query = "é".to_string();
    assert!(!v.update_search_checked());
    assert!(v.search_matches.is_empty());
    v.search_query = "x".to_string();
    assert!(v.update_search_checked());
}

#[test]
fn clicks_land_in_the_panel_under_them() {
    let v = DiffViewState::new();
    let mut both = DiffViewState::new();
    both.load("f", "a\n", "b\n");
    let rect = PanelRect { x: 0, y: 0, width: 42, height: 10 };
    let l = DiffPanelLayout::compute(rect, &both);
    assert!(!l.is_new_file);
    assert_eq!(l.content_range(DiffPanel::Old), (6, 20));
    assert_eq!(l.content_range(DiffPanel::New), (26, 41));
    assert_eq!(l.panel_at_x(6), Some(DiffPanel::Old));
    assert_eq!(l.panel_at_x(1), Some(DiffPanel::Old));
    assert_eq!(l.panel_at_x(30), Some(DiffPanel::New));
    assert_eq!(l.panel_at_x(41), None);
    let single = DiffPanelLayout::compute(rect, &v);
    assert!(single.is_new_file);
    assert_eq!(single.panel_at_x(3), Some(DiffPanel::New));
}

#[test]
fn dragging_keeps_selection_inside_panel() {
    let mut both = DiffViewState::new();
    both.load("f", "a\n", "b\n");
    let l = DiffPanelLayout::compute(PanelRect { x: 0, y: 0, width: 42, height: 10 }, &both);
    let mut sel = TextSelection {
        panel: DiffPanel::Old,
        start_col: 10,
        start_row: 3,
        end_col: 10,
        end_row: 3,
        dragging: true,
        text: String::new(),
    };
    sel.drag_to(&l, 0, 0);
    assert_eq!((sel.end_col, sel.end_row), (1, 1));
    sel.drag_to(&l, 30, 20);
    assert_eq!((sel.end_col, sel.end_row), (19, 8));
    sel.drag_to(&l, 12, 5);
    assert_eq!((sel.end_col, sel.end_row), (12, 5));
    sel.dragging = false;
    sel.drag_to(&l, 2, 2);
    assert_eq!((sel.end_col, sel.end_row), (12, 5));
    assert_eq!((sel.start_col, sel.start_row), (10, 3));
}

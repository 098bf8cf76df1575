use lazygitrs::popup::{
    auto_wrap, checked_labels, commit_history_contents, parse_commit_history, checklist_down, checklist_visible, clear_checks, commit_text, commit_wrap_width, history_newer,
    history_older, menu_next, menu_prev, menu_shortcut, remember_commit_message, toggle_shown, HistoryMove,
    MAX_COMMIT_HISTORY,
};
use lazygitrs::ui::ChecklistItem;

fn items(labels: &[(&str, bool)]) -> Vec<ChecklistItem> {
    labels.iter().map(|(l, c)| ChecklistItem { label: l.to_string(), checked: *c }).collect()
}

#[test]
fn remembered_message_moves_to_front_once() {
    let mut history = vec!["a".to_string(), "b".to_string()];
    remember_commit_message(&mut history, "b");
    assert_eq!(history, vec!["b".to_string(), "a".to_string()]);
    remember_commit_message(&mut history, "c");
    assert_eq!(history, vec!["c".to_string(), "b".to_string(), "a".to_string()]);
}

#[test]
fn blank_message_is_not_remembered() {
    let mut history = vec!["a".to_string()];
    remember_commit_message(&mut history, "  \n ");
    assert_eq!(history, vec!["a".to_string()]);
}

#[test]
fn message_history_is_bounded() {
    let mut history: Vec<String> = (0..MAX_COMMIT_HISTORY).map(|i| format!("m{}", i)).collect();
    remember_commit_message(&mut history, "new");
    assert_eq!(history.len(), 50);
    assert_eq!(history[0], "new");
    assert_eq!(history[49], "m48");
}

#[test]
fn commit_text_joins_summary_and_body() {
    assert_eq!(commit_text("Fix it", "  Because.\n"), "Fix it\n\nBecause.");
    assert_eq!(commit_text("Fix it", " \n "), "Fix it");
    assert_eq!(commit_text("", ""), "");
}

#[test]
fn history_older_steps_back_and_stops() {
    assert_eq!(history_older(None, 3), 0);
    assert_eq!(history_older(Some(0), 3), 1);
    assert_eq!(history_older(Some(2), 3), 2);
}

#[test]
fn history_newer_steps_forward_to_draft() {
    assert_eq!(history_newer(None), HistoryMove::Stay);
    assert_eq!(history_newer(Some(0)), HistoryMove::Draft);
    assert_eq!(history_newer(Some(2)), HistoryMove::Entry(1));
}

#[test]
fn newer_after_older_comes_back() {
    let older = history_older(Some(0), 3);
    assert_eq!(history_newer(Some(older)), HistoryMove::Entry(0));
    let first = history_older(None, 3);
    assert_eq!(history_newer(Some(first)), HistoryMove::Draft);
}

#[test]
fn wrap_width_follows_popup_and_config() {
    assert_eq!(commit_wrap_width(80, 0), 44);
    assert_eq!(commit_wrap_width(80, 72), 44);
    assert_eq!(commit_wrap_width(80, 30), 30);
    assert_eq!(commit_wrap_width(200, 0), 56);
    assert_eq!(commit_wrap_width(20, 0), 26);
}

#[test]
fn menu_moves_skip_disabled_entries() {
    assert_eq!(menu_next(&[true, false, true], 0), 2);
    assert_eq!(menu_next(&[true, false, false], 0), 0);
    assert_eq!(menu_prev(&[true, false, true], 2), 0);
    assert_eq!(menu_prev(&[false, false, true], 2), 2);
    assert_eq!(menu_prev(&[true, true], 0), 0);
}

#[test]
fn menu_shortcut_picks_enabled_entry() {
    let keys = [Some('a'), Some('b'), None];
    let enabled = [true, false, true];
    assert_eq!(menu_shortcut(&keys, &enabled, 'a'), Some(0));
    assert_eq!(menu_shortcut(&keys, &enabled, 'b'), None);
    assert_eq!(menu_shortcut(&keys, &enabled, 'z'), None);
}

#[test]
fn checklist_search_ignores_case() {
    let list = items(&[("Alpha", false), ("beta", false), ("Gamma", false)]);
    assert_eq!(checklist_visible(&list, ""), vec![0, 1, 2]);
    assert_eq!(checklist_visible(&list, "ET"), vec![1]);
    assert_eq!(checklist_visible(&list, "mm"), vec![2]);
    assert_eq!(checklist_visible(&list, "zz"), Vec::<usize>::new());
}

#[test]
fn checklist_selection_moves_down_and_stops() {
    assert_eq!(checklist_down(0, 3), 1);
    assert_eq!(checklist_down(2, 3), 2);
    assert_eq!(checklist_down(5, 0), 5);
}

#[test]
fn checklist_toggle_clear_and_collect() {
    let mut list = items(&[("Alpha", false), ("beta", true), ("Gamma", false)]);
    let visible = checklist_visible(&list, "a");
    assert_eq!(visible, vec![0, 1, 2]);
    toggle_shown(&mut list, &visible, 2);
    assert_eq!(checked_labels(&list), vec!["beta".to_string(), "Gamma".to_string()]);
    toggle_shown(&mut list, &visible, 7);
    assert_eq!(checked_labels(&list), vec!["beta".to_string(), "Gamma".to_string()]);
    clear_checks(&mut list);
    assert_eq!(checked_labels(&list), Vec::<String>::new());
    assert_eq!(list[2].label, "Gamma");
}

fn strings(v: &[&str]) -> Vec<String> {
    v.iter().map(|s| s.to_string()).collect()
}

#[test]
fn auto_wrap_breaks_at_last_space() {
    let r = auto_wrap(&strings(&["hello world foo"]), 0, 15, 10);
    assert_eq!(r, Some((strings(&["hello", "world foo"]), 1, 9)));
}

#[test]
fn auto_wrap_cuts_words_without_spaces() {
    let r = auto_wrap(&strings(&["abcdefghijkl"]), 0, 7, 5);
    assert_eq!(r, Some((strings(&["abcde", "fghij", "kl"]), 1, 1)));
}

#[test]
fn auto_wrap_ignores_a_leading_space_as_break() {
    let r = auto_wrap(&strings(&[" abcdefgh"]), 0, 0, 4);
    assert_eq!(r, Some((strings(&[" abc", "defg", "h"]), 0, 0)));
}

#[test]
fn auto_wrap_keeps_short_lines_and_moves_cursor() {
    let r = auto_wrap(&strings(&["short", "a b c d e f"]), 1, 3, 5);
    assert_eq!(r, Some((strings(&["short", "a b", "c d", "e f"]), 1, 3)));
}

#[test]
fn auto_wrap_cursor_past_last_line() {
    let r = auto_wrap(&strings(&["abcdefgh"]), 5, 0, 4);
    assert_eq!(r, Some((strings(&["abcd", "efgh"]), 1, 4)));
}

#[test]
fn auto_wrap_counts_bytes() {
    let r = auto_wrap(&strings(&["\u{e9}\u{e9}\u{e9}"]), 0, 0, 4);
    assert_eq!(r, Some((strings(&["\u{e9}\u{e9}", "\u{e9}"]), 0, 0)));
}

#[test]
fn auto_wrap_leaves_fitting_text() {
    assert_eq!(auto_wrap(&strings(&["abc", "de"]), 0, 1, 5), None);
    assert_eq!(auto_wrap(&strings(&["abcdefgh"]), 0, 1, 0), None);
}

#[test]
fn commit_history_file_is_nul_separated() {
    assert_eq!(parse_commit_history("a\0\0b\0"), vec!["a".to_string(), "b".to_string()]);
    assert_eq!(parse_commit_history(""), Vec::<String>::new());
    let h = vec!["fix: x".to_string(), "feat: y\n\nbody".to_string()];
    assert_eq!(commit_history_contents(&h), "fix: x\0feat: y\n\nbody");
    assert_eq!(parse_commit_history(&commit_history_contents(&h)), h);
}

#[test]
fn auto_wrapped_lines_fit_the_width() {
    let text = strings(&["a long line with several words in it", "x", "unbroken_word_longer_than_width ok"]);
    let (out, _, _) = auto_wrap(&text, 0, 0, 9).unwrap();
    assert!(out.iter().all(|l| l.len() <= 9));
    assert_eq!(out[0], "a long");
}

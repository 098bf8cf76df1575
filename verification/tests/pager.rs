use lazygitrs::pager::diff_algo::{compute_side_by_side, compute_side_by_side_from_unified_diff, find_hunk_starts};
use lazygitrs::pager::notes_store::{
    canonical_notes_path, gitdir_candidates, notes_load_candidates, resolve_load_path, should_remove_legacy, LinesFile,
};
use lazygitrs::pager::word_diff::compute_word_diff;
use lazygitrs::pager::{expand_tabs, format_iso8601, now_iso8601, unix_to_ymdhms, ChangeType, DiffLine};

fn sides(rows: &[DiffLine]) -> Vec<(Option<(usize, String)>, Option<(usize, String)>, ChangeType)> {
    rows.iter().map(|r| (r.old_line.clone(), r.new_line.clone(), r.change_type)).collect()
}

#[test]
fn tabs_expand_to_the_next_stop() {
    assert_eq!(expand_tabs("a\tb", 4), "a   b");
    assert_eq!(expand_tabs("\tx", 2), "  x");
    assert_eq!(expand_tabs("abcd\te", 4), "abcd    e");
    assert_eq!(expand_tabs("no tabs", 0), "no tabs");
}

#[test]
fn unix_time_converts_to_civil_time() {
    assert_eq!(unix_to_ymdhms(0), (1970, 1, 1, 0, 0, 0));
    assert_eq!(unix_to_ymdhms(1700000000), (2023, 11, 14, 22, 13, 20));
    assert_eq!(unix_to_ymdhms(951782400), (2000, 2, 29, 0, 0, 0));
    assert_eq!(format_iso8601(1700000000, 7), "2023-11-14T22:13:20.007Z");
    let now = now_iso8601();
    assert_eq!(now.len(), 24);
    assert!(now.ends_with('Z'));
}

#[test]
fn side_by_side_pairs_changed_lines() {
    let rows = compute_side_by_side("a\nb\nc\n", "a\nB\nc\nd\n", 4);
    assert_eq!(
        sides(&rows),
        vec![
            (Some((1, "a".to_string())), Some((1, "a".to_string())), ChangeType::Equal),
            (Some((2, "b".to_string())), Some((2, "B".to_string())), ChangeType::Modified),
            (Some((3, "c".to_string())), Some((3, "c".to_string())), ChangeType::Equal),
            (None, Some((4, "d".to_string())), ChangeType::Insert),
        ]
    );
    assert_eq!(find_hunk_starts(&rows), vec![1, 3]);
}

#[test]
fn side_by_side_of_a_unified_diff_trusts_its_marks() {
    let diff = "@@ -1,3 +1,3 @@\n a\n-b\n+B\n c\n";
    let rows = compute_side_by_side_from_unified_diff(diff, 4);
    assert_eq!(
        sides(&rows),
        vec![
            (Some((1, "a".to_string())), Some((1, "a".to_string())), ChangeType::Equal),
            (Some((2, "b".to_string())), Some((2, "B".to_string())), ChangeType::Modified),
            (Some((3, "c".to_string())), Some((3, "c".to_string())), ChangeType::Equal),
        ]
    );
}

#[test]
fn word_diff_highlights_the_changed_word() {
    let (old, new) = compute_word_diff("let x = 1;", "let x = 2;").unwrap();
    let old_text: String = old.iter().map(|s| s.text.as_str()).collect();
    let new_text: String = new.iter().map(|s| s.text.as_str()).collect();
    assert_eq!(old_text, "let x = 1;");
    assert_eq!(new_text, "let x = 2;");
    assert!(old.iter().any(|s| s.emphasized && s.text == "1"));
    assert!(new.iter().any(|s| s.emphasized && s.text == "2"));
    assert!(old.iter().all(|s| !s.emphasized || s.text == "1"));
    assert!(compute_word_diff("alpha", "omega").is_none());
    assert!(compute_word_diff("", "").is_none());
}

#[test]
fn notes_paths_follow_the_git_directory() {
    assert_eq!(canonical_notes_path(Some("/r/.git"), "/state/x.json"), "/r/.git/info/lines.json");
    assert_eq!(canonical_notes_path(None, "/state/x.json"), "/state/x.json");
    assert_eq!(
        notes_load_candidates("/r", Some("/r/.git"), "/s.json"),
        vec!["/r/.git/info/lines.json".to_string(), "/r/.git/lines.json".to_string(), "/r/.lines.json".to_string(), "/s.json".to_string()]
    );
    assert_eq!(gitdir_candidates("/wt/feat", "gitdir: /bare/worktrees/feat\n"), vec!["/bare/worktrees/feat".to_string()]);
    assert_eq!(gitdir_candidates("/wt/feat", "gitdir: ../bare\n"), vec!["/wt/feat/../bare".to_string()]);
    let cands = vec!["a".to_string(), "b".to_string(), "c".to_string()];
    assert_eq!(resolve_load_path(&cands, &[false, true, true], "z"), "b");
    assert_eq!(resolve_load_path(&cands, &[false, false, false], "z"), "z");
    assert!(should_remove_legacy(true, "/r/.lines.json", "/r/.git/info/lines.json"));
    assert!(!should_remove_legacy(true, "/r/.lines.json", "/r/.lines.json"));
    assert!(!should_remove_legacy(false, "/r/.lines.json", "/x"));
}

#[test]
fn saving_bumps_the_revision() {
    let f = LinesFile::new();
    assert_eq!((f.version, f.revision), (1, 0));
    let g = f.prepare_for_save();
    assert_eq!(g.revision, 1);
    let h = g.prepare_for_save();
    assert_eq!(h.revision, 2);
    let mut m = LinesFile::new();
    m.revision = u64::MAX;
    assert_eq!(m.prepare_for_save().revision, 0);
}

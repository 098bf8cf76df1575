use lazygitrs::git::worktree::worktree_branch;
use lazygitrs::git::GitError;
use lazygitrs::model::{File, FileStatus};
use lazygitrs::pager::notes_store::{choose_git_dir, notes_fallback_path, notes_state_dir, LinesEntry};
use lazygitrs::pager::side_by_side::{DiffPanel, TextSelection};
use lazygitrs::pager::{NoteSource, NoteStatus};
use lazygitrs::scroll::{calc_scrollbar, calc_scrollbar_height, ensure_visible, scroll_viewport};

#[test]
fn selection_stays_visible() {
    let mut off = 0;
    ensure_visible(12, &mut off, 10);
    assert_eq!(off, 3);
    ensure_visible(1, &mut off, 10);
    assert_eq!(off, 1);
    ensure_visible(5, &mut off, 10);
    assert_eq!(off, 1);
    ensure_visible(99, &mut off, 0);
    assert_eq!(off, 1);
}

#[test]
fn viewport_scrolls_within_bounds() {
    let mut off = 5;
    scroll_viewport(&mut off, -3, 50, 10);
    assert_eq!(off, 2);
    scroll_viewport(&mut off, -9, 50, 10);
    assert_eq!(off, 0);
    scroll_viewport(&mut off, 100, 50, 10);
    assert_eq!(off, 40);
    scroll_viewport(&mut off, 3, 8, 10);
    assert_eq!(off, 0);
    let mut high = 10;
    scroll_viewport(&mut high, -1, 5, 2);
    assert_eq!(high, 3);
}

#[test]
fn selection_ends_come_in_reading_order() {
    let sel = TextSelection {
        panel: DiffPanel::New,
        start_col: 9,
        start_row: 7,
        end_col: 2,
        end_row: 3,
        dragging: false,
        text: String::new(),
    };
    assert_eq!(sel.normalized(), (3, 2, 7, 9));
    let same_row = TextSelection { start_row: 4, end_row: 4, start_col: 1, end_col: 6, ..sel.clone() };
    assert_eq!(same_row.normalized(), (4, 1, 4, 6));
}

#[test]
fn file_change_flags() {
    let f = File {
        name: "a".to_string(),
        display_name: "a".to_string(),
        status: FileStatus::Untracked,
        has_staged_changes: false,
        has_unstaged_changes: true,
        git_tracked: false,
        added: false,
        deleted: false,
        has_merge_conflicts: false,
        short_status: "??".to_string(),
    };
    assert!(!f.is_tracked());
    assert!(f.has_any_changes());
    let clean = File { has_unstaged_changes: false, git_tracked: true, ..f };
    assert!(clean.is_tracked());
    assert!(!clean.has_any_changes());
}

#[test]
fn stored_entries_become_notes() {
    let e = LinesEntry {
        id: "n1".to_string(),
        file: "src/a.rs".to_string(),
        line: 4,
        panel: "Old".to_string(),
        comment: "why?".to_string(),
        rationale: Some("because".to_string()),
        source: NoteSource::Agent,
        author: "bot".to_string(),
        created_at: "2024-01-01T00:00:00.000Z".to_string(),
        status: NoteStatus::Sent,
        tags: vec!["q".to_string()],
        confidence: Some("high".to_string()),
    };
    let n = e.to_comment_note();
    assert_eq!((n.id.as_str(), n.text.as_str(), n.author.as_str()), ("n1", "why?", "bot"));
    assert!(n.is_old);
    assert_eq!(n.tags, vec!["q".to_string()]);
    assert_eq!(n.confidence.as_deref(), Some("high"));
    assert_eq!(n.rationale.as_deref(), Some("because"));
    let new_side = LinesEntry { panel: "New".to_string(), ..e };
    assert!(!new_side.to_comment_note().is_old);
}

#[test]
fn worktree_branch_names_are_cleaned() {
    assert_eq!(worktree_branch("  /feat/x/ ").unwrap(), "feat/x");
    assert!(matches!(worktree_branch(" / "), Err(GitError::EmptyBranchName)));
}

#[test]
fn notes_for_one_file() {
    let mut f = lazygitrs::pager::notes_store::LinesFile::new();
    for (i, name) in ["a.rs", "b.rs", "a.rs"].iter().enumerate() {
        f.notes.push(LinesEntry::new_user(format!("n{}", i), name.to_string(), i + 1, "New", "c".to_string()));
    }
    assert_eq!(f.notes_for_file("a.rs"), vec![0, 2]);
    assert_eq!(f.notes_for_file("b.rs"), vec![1]);
    assert!(f.notes_for_file("c.rs").is_empty());
}

fn float_height(list: usize, page: usize, area: usize) -> usize {
    if page >= list || list == 0 {
        return area;
    }
    ((page as f64 / list as f64) * area as f64) as usize
}

fn float_scrollbar(list: usize, page: usize, pos: usize, area: usize) -> (usize, usize) {
    let height = float_height(list, page, area);
    let max_position = list.saturating_sub(page);
    if max_position == 0 {
        return (0, height);
    }
    if pos >= max_position {
        return (area.saturating_sub(height), height);
    }
    let range = (area.saturating_sub(height).saturating_sub(1)) as f64;
    ((((pos as f64) / (max_position as f64)) * range).ceil() as usize, height)
}

#[test]
fn scrollbar_follows_double_arithmetic() {
    assert_eq!(calc_scrollbar_height(11, 3, 55), 14);
    assert_eq!(calc_scrollbar(26, 1, 7, 27), float_scrollbar(26, 1, 7, 27));
    for list in 0..60 {
        for page in 0..list + 2 {
            for area in [0usize, 1, 7, 27, 55, 99] {
                assert_eq!(calc_scrollbar_height(list, page, area), float_height(list, page, area));
                for pos in [0usize, 1, 3, 7, 20] {
                    assert_eq!(calc_scrollbar(list, page, pos, area), float_scrollbar(list, page, pos, area));
                }
            }
        }
    }
}

#[test]
fn git_directory_is_the_dot_git_dir_or_first_existing_target() {
    let c = vec!["/a/wt".to_string(), "/b/wt".to_string()];
    assert_eq!(choose_git_dir("/repo", true, &c, &[true, true]), Some("/repo/.git".to_string()));
    assert_eq!(choose_git_dir("/repo", false, &c, &[false, true]), Some("/b/wt".to_string()));
    assert_eq!(choose_git_dir("/repo", false, &c, &[false, false]), None);
    assert_eq!(choose_git_dir("/repo", false, &[], &[]), None);
}

#[test]
fn notes_fallback_path_names_the_hash_in_hex() {
    assert_eq!(notes_fallback_path("/home/u/.local/state", 0xab), "/home/u/.local/state/lazygitrs/notes/00000000000000ab.json");
    assert_eq!(notes_fallback_path("/s/", u64::MAX), "/s/lazygitrs/notes/ffffffffffffffff.json");
    assert_eq!(notes_fallback_path("", 0x0123456789abcdef), "lazygitrs/notes/0123456789abcdef.json");
    assert_eq!(notes_state_dir(Some("/x/state"), Some("/home/u")), "/x/state");
    assert_eq!(notes_state_dir(None, Some("/home/u")), "/home/u/.local/state");
    assert_eq!(notes_state_dir(None, None), "./.local/state");
}

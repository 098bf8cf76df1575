use lazygitrs::copy_menu::{copy_menu_entries, has_message_body, tags_text, CopyItem};
use lazygitrs::diff_request::{
    child_diff_source, combine_diffs, file_diff_source, short_hash_title, shows_content, stash_title, DiffSource,
};
use lazygitrs::git::{CmdOutput, GitCommands};
use lazygitrs::undo::{parse_reflog_hashes, redo_step, step_question, undo_step};

#[test]
fn undo_walks_back_and_redo_forward() {
    let entries: Vec<String> = vec!["h0".to_string(), "h1".to_string(), "h2".to_string()];
    let u = undo_step(&entries, 0).unwrap();
    assert_eq!((u.index, u.hash.as_str()), (1, "h1"));
    let r = redo_step(&entries, u.index).unwrap();
    assert_eq!((r.index, r.hash.as_str()), (0, "h0"));
    assert!(undo_step(&entries, 2).is_none());
    assert!(redo_step(&entries, 0).is_none());
    assert!(redo_step(&entries, 9).is_none());
}

#[test]
fn undo_reads_the_reflog() {
    let g = GitCommands::new("/r".to_string());
    let c = g.reflog_hashes();
    assert_eq!(c.args, vec!["reflog", "--format=%H", "-n", "20"]);
    let out = CmdOutput { success: true, stdout: "aaa\nbbb\n".to_string(), stderr: String::new() };
    assert_eq!(parse_reflog_hashes(&out), vec!["aaa".to_string(), "bbb".to_string()]);
    let bad = CmdOutput { success: false, stdout: "x".to_string(), stderr: String::new() };
    assert!(parse_reflog_hashes(&bad).is_empty());
    let entries = vec!["0123456789".to_string(), "abcdef0123".to_string()];
    let u = undo_step(&entries, 0).unwrap();
    assert_eq!(step_question(true, &u), "Undo to reflog entry 1? (abcdef0)");
    let r = redo_step(&entries, 1).unwrap();
    assert_eq!(step_question(false, &r), "Redo to reflog entry 0? (0123456)");
}

#[test]
fn diff_sources_follow_the_changes() {
    assert_eq!(file_diff_source(true, true), DiffSource::Unstaged);
    assert_eq!(file_diff_source(false, true), DiffSource::Staged);
    assert_eq!(file_diff_source(false, false), DiffSource::Nothing);
    assert_eq!(child_diff_source(false, false, false), DiffSource::Content);
    assert_eq!(child_diff_source(false, false, true), DiffSource::Nothing);
    assert!(shows_content("", false));
    assert!(!shows_content("", true));
    assert!(!shows_content("diff", false));
}

#[test]
fn directory_diffs_are_joined() {
    let diffs = vec!["a".to_string(), String::new(), "b\n".to_string(), "c".to_string()];
    assert_eq!(combine_diffs(&diffs), "a\nb\n\nc");
    assert_eq!(combine_diffs(&vec![]), "");
}

#[test]
fn diff_titles() {
    assert_eq!(short_hash_title("commit", "0123456789abcdef"), "commit:0123456");
    assert_eq!(short_hash_title("reflog", "abc"), "reflog:abc");
    assert_eq!(stash_title(3), "stash@{3}");
}

#[test]
fn copy_menu_disables_what_is_missing() {
    let items = copy_menu_entries(false, true);
    assert_eq!(items.len(), 9);
    assert_eq!(items[0].item, CopyItem::Hash);
    assert_eq!(items[3].item, CopyItem::Body);
    assert!(!items[3].enabled);
    assert_eq!(items[3].description, "Commit has no message body");
    assert!(items[7].enabled);
    assert_eq!(items[7].key, Some('t'));
    assert_eq!(items[8].label, "Cancel");
    let all = copy_menu_entries(true, false);
    assert!(all[3].enabled && all[3].description.is_empty());
    assert!(!all[7].enabled);
    assert!(has_message_body("  body \n"));
    assert!(!has_message_body(" \n\t"));
    assert_eq!(tags_text(&vec!["v1".to_string(), "v2".to_string()]), "v1, v2");
    assert_eq!(tags_text(&vec![]), "");
}

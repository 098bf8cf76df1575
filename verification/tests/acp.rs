use lazygitrs::acp::{optional_text, parse_action, session_conflict, AcpAction, NavigateContext};

fn nav(hunk: Option<usize>, side: Option<&str>, line: Option<usize>, dir: Option<&str>) -> NavigateContext {
    NavigateContext {
        file_path: "a.rs".to_string(),
        hunk_number: hunk,
        side: side.map(|s| s.to_string()),
        line,
        comment_direction: dir.map(|s| s.to_string()),
        combined_view: None,
    }
}

#[test]
fn actions_are_recognised() {
    assert_eq!(parse_action("register"), AcpAction::Register);
    assert_eq!(parse_action("unregister"), AcpAction::Unregister);
    assert_eq!(parse_action("list"), AcpAction::List);
    assert_eq!(parse_action("comment-list"), AcpAction::List);
    assert_eq!(parse_action("navigate"), AcpAction::Navigate);
    assert_eq!(parse_action("Register"), AcpAction::Other);
}

#[test]
fn navigation_needs_a_target() {
    assert!(nav(Some(2), None, None, None).is_actionable());
    assert!(nav(None, Some("new"), Some(10), None).is_actionable());
    assert!(nav(None, None, None, Some("next")).is_actionable());
    assert!(!nav(None, Some("new"), None, None).is_actionable());
    assert!(!nav(None, None, Some(3), None).is_actionable());
}

#[test]
fn registering_over_another_session_conflicts() {
    assert_eq!(session_conflict(&Some("s1".to_string()), "s2", false), Some("s1".to_string()));
    assert_eq!(session_conflict(&Some("s1".to_string()), "s2", true), None);
    assert_eq!(session_conflict(&Some("s1".to_string()), "s1", false), None);
    assert_eq!(session_conflict(&None, "s2", false), None);
    assert_eq!(optional_text(""), None);
    assert_eq!(optional_text("http://x"), Some("http://x".to_string()));
}

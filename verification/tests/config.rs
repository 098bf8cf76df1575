use lazygitrs::config::AppState;

#[test]
fn opened_repository_moves_to_the_front() {
    let mut s = AppState::default();
    s.add_recent_repo("/a");
    s.add_recent_repo("/b");
    s.add_recent_repo("/a");
    assert_eq!(s.recent_repos, vec!["/a".to_string(), "/b".to_string()]);
    s.add_recent_repo("/a");
    assert_eq!(s.recent_repos, vec!["/a".to_string(), "/b".to_string()]);
}

#[test]
fn recent_list_keeps_twenty() {
    let mut s = AppState::default();
    for i in 0..25 {
        s.add_recent_repo(&format!("/r{}", i));
    }
    assert_eq!(s.recent_repos.len(), 20);
    assert_eq!(s.recent_repos[0], "/r24");
    assert_eq!(s.recent_repos[19], "/r5");
}

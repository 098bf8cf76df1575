use lazygitrs::git::GitCommands;

#[test]
fn test_resolve_worktree_sibling_path() {
    let dummy = GitCommands::new("/home/user/dev/project/fix-worktree".to_string());

    let sibling = dummy.resolve_worktree_sibling_path("feat/login-page");
    assert_eq!(sibling, "/home/user/dev/project/feat-login-page".to_string());

    let nested = dummy.resolve_worktree_sibling_path("fix/ui/buttons");
    assert_eq!(nested, "/home/user/dev/project/fix-ui-buttons".to_string());
}

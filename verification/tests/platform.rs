use lazygitrs::platform::{base64_encode, worktree_session_commands, worktree_session_name, HostOs, Platform};

#[test]
fn base64_pads_the_last_group() {
    assert_eq!(base64_encode(b""), "");
    assert_eq!(base64_encode(b"M"), "TQ==");
    assert_eq!(base64_encode(b"Ma"), "TWE=");
    assert_eq!(base64_encode(b"Man"), "TWFu");
    assert_eq!(base64_encode(b"hello world"), "aGVsbG8gd29ybGQ=");
    assert_eq!(base64_encode(&[0xff, 0xfe, 0xfd]), "//79");
    for n in 0..10usize {
        let data = vec![7u8; n];
        assert_eq!(base64_encode(&data).len(), 4 * ((n + 2) / 3));
    }
}

#[test]
fn osc52_wraps_the_encoded_text() {
    assert_eq!(Platform::osc52_sequence("hi", false), "\u{1b}]52;c;aGk=\u{7}");
    assert_eq!(Platform::osc52_sequence("hi", true), "\u{1b}Ptmux;\u{1b}\u{1b}]52;c;aGk=\u{7}\u{1b}\\");
    assert_eq!(Platform::osc52_sequence("é", false), "\u{1b}]52;c;w6k=\u{7}");
}

#[test]
fn open_file_uses_the_system_opener() {
    let mac = Platform::open_file("/tmp/a b", HostOs::MacOs);
    assert_eq!(mac.program, "open");
    assert_eq!(mac.args, vec!["/tmp/a b".to_string()]);
    assert_eq!(mac.cwd, "");
    let win = Platform::open_file("C:\\x", HostOs::Windows);
    assert_eq!(win.program, "cmd");
    assert_eq!(win.args, vec!["/c", "start", "", "C:\\x"]);
    assert_eq!(Platform::open_file("/x", HostOs::Unix).program, "xdg-open");
}

#[test]
fn clipboard_commands_are_tried_in_order() {
    let unix = Platform::clipboard_commands("text", HostOs::Unix);
    let programs: Vec<&str> = unix.iter().map(|c| c.program.as_str()).collect();
    assert_eq!(programs, vec!["wl-copy", "xclip", "xsel"]);
    assert_eq!(unix[1].args, vec!["-selection", "clipboard"]);
    assert_eq!(unix[2].args, vec!["--clipboard", "--input"]);
    assert!(unix.iter().all(|c| c.stdin.as_deref() == Some("text")));
    let mac = Platform::clipboard_commands("t", HostOs::MacOs);
    assert_eq!(mac.len(), 1);
    assert_eq!(mac[0].program, "pbcopy");
    assert_eq!(Platform::clipboard_commands("t", HostOs::Windows)[0].program, "clip");
}

#[test]
fn worktree_sessions_are_named_after_the_directory() {
    assert_eq!(worktree_session_name("/home/u/wt/feature"), "feature");
    assert_eq!(worktree_session_name("/home/u/wt/feature/"), "feature");
    assert_eq!(worktree_session_name("/"), "worktree");
}

#[test]
fn worktree_session_commands_try_sesh_then_tmux() {
    let (sesh, inside) = worktree_session_commands("/w/feat", true);
    assert_eq!(sesh.program, "sesh");
    assert_eq!(sesh.args, vec!["connect".to_string(), "/w/feat".to_string()]);
    assert_eq!(inside.len(), 2);
    assert_eq!(inside[0].args, ["new-session", "-d", "-s", "feat", "-c", "/w/feat"].map(String::from).to_vec());
    assert_eq!(inside[1].args, ["switch-client", "-t", "feat"].map(String::from).to_vec());
    let (_, outside) = worktree_session_commands("/w/feat", false);
    assert_eq!(outside.len(), 1);
    assert_eq!(outside[0].program, "tmux");
    assert_eq!(outside[0].args, ["new-session", "-A", "-s", "feat", "-c", "/w/feat"].map(String::from).to_vec());
}

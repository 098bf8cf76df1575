use vstd::prelude::*;

use crate::git::{args1, args2, args3, args4, args6, file_name_of, path_file_name, GitCommand};
use crate::model::strs;
use crate::text::owned;

verus! {

/// Operating-system services: opening files and the clipboard.
pub struct Platform;

/// The operating system the program runs on, as far as the commands it uses differ.
#[derive(Debug, Clone, Copy, PartialEq, Eq, Structural)]
pub enum HostOs {
    MacOs,
    Windows,
    /// Linux and the other Unix systems.
    Unix,
}

/// `c` runs `program` with exactly `args` in the current directory, with no extra
/// environment, feeding it `stdin` (when given).
pub open spec fn is_command(c: GitCommand, program: Seq<char>, args: Seq<Seq<char>>, stdin: Option<Seq<char>>) -> bool {
    &&& c.program@ == program
    &&& c.cwd@.len() == 0
    &&& strs(c.args@) == args
    &&& c.env@.len() == 0
    &&& match (c.stdin, stdin) {
        (Some(a), Some(b)) => a@ == b,
        (None, None) => true,
        _ => false,
    }
}

/// A command running `program` with `args` in the current directory, fed `stdin`.
fn command(program: &str, args: Vec<String>, stdin: Option<&str>) -> (c: GitCommand)
    ensures
        is_command(
            c,
            program@,
            strs(args@),
            match stdin {
                Some(s) => Some(s@),
                None => None,
            },
        ),
{
    let input = match stdin {
        Some(s) => Some(owned(s)),
        None => None,
    };
    GitCommand { program: owned(program), cwd: String::new(), args, env: Vec::new(), stdin: input }
}

// ---------------------------------------------------------------------------
// Base64 (RFC 4648, with padding)
// ---------------------------------------------------------------------------

/// The base64 digit of a value below 64.
pub open spec fn b64_digit(v: int) -> char {
    if v < 26 {
        (65 + v) as char
    } else if v < 52 {
        (97 + v - 26) as char
    } else if v < 62 {
        (48 + v - 52) as char
    } else if v == 62 {
        '+'
    } else {
        '/'
    }
}

/// The four characters encoding the `n` bytes (1 to 3) `b0`, `b1`, `b2` (missing ones
/// 0), with `=` for each missing byte.
pub open spec fn b64_group(b0: int, b1: int, b2: int, n: int) -> Seq<char> {
    let t = b0 * 65536 + b1 * 256 + b2;
    seq![
        b64_digit(t / 262144 % 64),
        b64_digit(t / 4096 % 64),
        if n > 1 { b64_digit(t / 64 % 64) } else { '=' },
        if n > 2 { b64_digit(t % 64) } else { '=' },
    ]
}

/// The base64 encoding of `s`, three bytes at a time.
pub open spec fn base64(s: Seq<u8>) -> Seq<char>
    decreases s.len(),
{
    if s.len() == 0 {
        seq![]
    } else if s.len() == 1 {
        b64_group(s[0] as int, 0, 0, 1)
    } else if s.len() == 2 {
        b64_group(s[0] as int, s[1] as int, 0, 2)
    } else {
        b64_group(s[0] as int, s[1] as int, s[2] as int, 3) + base64(s.skip(3))
    }
}

/// The base64 digit of `v`.
fn digit(v: u32) -> (c: char)
    requires
        v < 64,
    ensures
        c == b64_digit(v as int),
{
    if v < 26 {
        ((65 + v) as u8) as char
    } else if v < 52 {
        ((97 + v - 26) as u8) as char
    } else if v < 62 {
        ((48 + v - 52) as u8) as char
    } else if v == 62 {
        '+'
    } else {
        '/'
    }
}

/// Appends the encoding of the `n` bytes `b0`, `b1`, `b2` to `out`.
fn push_group(out: &mut Vec<char>, b0: u8, b1: u8, b2: u8, n: usize)
    requires
        1 <= n <= 3,
    ensures
        final(out)@ == old(out)@ + b64_group(b0 as int, b1 as int, b2 as int, n as int),
{
    let t: u32 = (b0 as u32) * 65536 + (b1 as u32) * 256 + (b2 as u32);
    out.push(digit(t / 262144 % 64));
    out.push(digit(t / 4096 % 64));
    if n > 1 {
        out.push(digit(t / 64 % 64));
    } else {
        out.push('=');
    }
    if n > 2 {
        out.push(digit(t % 64));
    } else {
        out.push('=');
    }
    proof {
        assert(final(out)@ =~= old(out)@ + b64_group(b0 as int, b1 as int, b2 as int, n as int));
    }
}

/// The base64 encoding of `input` (standard alphabet, `=` padding).
pub fn base64_encode(input: &[u8]) -> (r: String)
    ensures
        r@ == base64(input@),
{
    let mut out: Vec<char> = Vec::new();
    let mut i: usize = 0;
    proof {
        assert(input@.skip(0) == input@);
    }
    while i < input.len()
        invariant
            i <= input.len(),
            out@ + base64(input@.skip(i as int)) == base64(input@),
        decreases input.len() - i,
    {
        let rest = input.len() - i;
        let ghost s = input@.skip(i as int);
        proof {
            assert(s[0] == input@[i as int]);
        }
        if rest >= 3 {
            proof {
                assert(s[1] == input@[i + 1]);
                assert(s[2] == input@[i + 2]);
                assert(s.skip(3) == input@.skip(i + 3));
            }
            push_group(&mut out, input[i], input[i + 1], input[i + 2], 3);
            i = i + 3;
        } else if rest == 2 {
            proof {
                assert(s[1] == input@[i + 1]);
                assert(input@.skip(i + 2).len() == 0);
            }
            push_group(&mut out, input[i], input[i + 1], 0, 2);
            i = i + 2;
        } else {
            proof {
                assert(input@.skip(i + 1).len() == 0);
            }
            push_group(&mut out, input[i], 0, 0, 1);
            i = i + 1;
        }
    }
    proof {
        assert(input@.skip(i as int).len() == 0);
        assert(out@ + base64(input@.skip(i as int)) == out@);
    }
    crate::text::string_of(&out)
}


/// The terminal sequence that puts text, base64-encoded as `encoded`, on the clipboard
/// (OSC 52); inside tmux, wrapped so that tmux passes it on.
pub open spec fn osc52(encoded: Seq<char>, in_tmux: bool) -> Seq<char> {
    if in_tmux {
        "\u{1b}Ptmux;\u{1b}\u{1b}]52;c;"@ + encoded + "\u{7}\u{1b}\\"@
    } else {
        "\u{1b}]52;c;"@ + encoded + "\u{7}"@
    }
}

impl Platform {
    /// The command that opens `path` with the system's default application: `open` on
    /// macOS, `cmd /c start "" path` on Windows, `xdg-open` elsewhere.
    pub fn open_file(path: &str, os: HostOs) -> (c: GitCommand)
        ensures
            os == HostOs::MacOs ==> is_command(c, "open"@, seq![path@], None),
            os == HostOs::Windows ==> is_command(c, "cmd"@, seq!["/c"@, "start"@, ""@, path@], None),
            os == HostOs::Unix ==> is_command(c, "xdg-open"@, seq![path@], None),
    {
        match os {
            HostOs::MacOs => command("open", args1(path), None),
            HostOs::Windows => command("cmd", args4("/c", "start", "", path), None),
            HostOs::Unix => command("xdg-open", args1(path), None),
        }
    }

    /// The commands that can copy `text` to the clipboard, to be tried in order until
    /// one succeeds, each fed `text` on its input: `pbcopy` on macOS, `clip` on Windows,
    /// and elsewhere `wl-copy`, then `xclip -selection clipboard`, then
    /// `xsel --clipboard --input`.
    pub fn clipboard_commands(text: &str, os: HostOs) -> (cs: Vec<GitCommand>)
        ensures
            os == HostOs::MacOs ==> cs@.len() == 1 && is_command(cs@[0], "pbcopy"@, seq![], Some(text@)),
            os == HostOs::Windows ==> cs@.len() == 1 && is_command(cs@[0], "clip"@, seq![], Some(text@)),
            os == HostOs::Unix ==> {
                &&& cs@.len() == 3
                &&& is_command(cs@[0], "wl-copy"@, seq![], Some(text@))
                &&& is_command(cs@[1], "xclip"@, seq!["-selection"@, "clipboard"@], Some(text@))
                &&& is_command(cs@[2], "xsel"@, seq!["--clipboard"@, "--input"@], Some(text@))
            },
    {
        let mut cs: Vec<GitCommand> = Vec::new();
        match os {
            HostOs::MacOs => {
                let none: Vec<String> = Vec::new();
                proof {
                    assert(strs(none@) =~= seq![]);
                }
                let c = command("pbcopy", none, Some(text));
                cs.push(c);
            },
            HostOs::Windows => {
                let none: Vec<String> = Vec::new();
                proof {
                    assert(strs(none@) =~= seq![]);
                }
                let c = command("clip", none, Some(text));
                cs.push(c);
            },
            HostOs::Unix => {
                let none: Vec<String> = Vec::new();
                proof {
                    assert(strs(none@) =~= seq![]);
                }
                let c0 = command("wl-copy", none, Some(text));
                let c1 = command("xclip", args2("-selection", "clipboard"), Some(text));
                let c2 = command("xsel", args2("--clipboard", "--input"), Some(text));
                cs.push(c0);
                cs.push(c1);
                cs.push(c2);
            },
        }
        cs
    }

    /// The OSC 52 sequence that puts `text` (its UTF-8 bytes, base64-encoded) on the
    /// clipboard through the terminal; `in_tmux` when running inside tmux.
    pub fn osc52_sequence(text: &str, in_tmux: bool) -> (r: String)
        ensures
            r@ == osc52(base64(vstd::utf8::encode_utf8(text@)), in_tmux),
    {
        let encoded = base64_encode(text.as_bytes());
        if in_tmux {
            let mut r = owned("\u{1b}Ptmux;\u{1b}\u{1b}]52;c;");
            r.append(encoded.as_str());
            r.append("\u{7}\u{1b}\\");
            r
        } else {
            let mut r = owned("\u{1b}]52;c;");
            r.append(encoded.as_str());
            r.append("\u{7}");
            r
        }
    }
}


/// The encoding takes four characters for each group of three bytes, the last group
/// padded: `4 * ceil(n / 3)` characters for `n` bytes.
pub proof fn lemma_base64_len(s: Seq<u8>)
    ensures
        base64(s).len() == 4 * ((s.len() + 2) / 3),
    decreases s.len(),
{
    if s.len() >= 3 {
        lemma_base64_len(s.skip(3));
    }
}

// ---------------------------------------------------------------------------
// Terminal sessions for worktrees
// ---------------------------------------------------------------------------

/// The name of the terminal session for the worktree at `path`: the path's last
/// component, or `worktree` when it has none.
pub open spec fn session_name_of(path: Seq<char>) -> Seq<char> {
    match path_file_name(path) {
        Some(f) => f,
        None => "worktree"@,
    }
}

/// The name of the terminal session for the worktree at `path` (see
/// `session_name_of`).
pub fn worktree_session_name(path: &str) -> (r: String)
    ensures
        r@ == session_name_of(path@),
{
    match file_name_of(path) {
        Some(n) => n,
        None => owned("worktree"),
    }
}

/// The commands that open the worktree at `path` in a terminal session: first
/// `sesh connect <path>`; when it does not succeed, inside tmux a detached
/// `tmux new-session` for the worktree then `tmux switch-client` to it, and outside tmux
/// one `tmux new-session -A` that attaches (started, not waited for).
pub fn worktree_session_commands(path: &str, in_tmux: bool) -> (r: (GitCommand, Vec<GitCommand>))
    ensures
        is_command(r.0, "sesh"@, seq!["connect"@, path@], None),
        in_tmux ==> {
            &&& r.1@.len() == 2
            &&& is_command(r.1@[0], "tmux"@, seq!["new-session"@, "-d"@, "-s"@, session_name_of(path@), "-c"@, path@], None)
            &&& is_command(r.1@[1], "tmux"@, seq!["switch-client"@, "-t"@, session_name_of(path@)], None)
        },
        !in_tmux ==> {
            &&& r.1@.len() == 1
            &&& is_command(r.1@[0], "tmux"@, seq!["new-session"@, "-A"@, "-s"@, session_name_of(path@), "-c"@, path@], None)
        },
{
    let name = worktree_session_name(path);
    let sesh = command("sesh", args2("connect", path), None);
    let mut rest: Vec<GitCommand> = Vec::new();
    if in_tmux {
        let c0 = command("tmux", args6("new-session", "-d", "-s", name.as_str(), "-c", path), None);
        let c1 = command("tmux", args3("switch-client", "-t", name.as_str()), None);
        rest.push(c0);
        rest.push(c1);
    } else {
        let c0 = command("tmux", args6("new-session", "-A", "-s", name.as_str(), "-c", path), None);
        rest.push(c0);
    }
    (sesh, rest)
}

} // verus!

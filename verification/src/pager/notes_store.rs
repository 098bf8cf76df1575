use vstd::prelude::*;

use crate::git::{join_path, path_join};
use crate::model::strs;
use crate::pager::{is_civil_time, iso8601, now_iso8601, CommentNote, NoteSource, NoteStatus};
use crate::text::{chars_eq, chars_of, has_prefix, lines_of, owned, split_lines, string_of, strip_prefix, trim, trim_exec};

verus! {

/// The AI session registered for a repository.
#[derive(Debug, Clone)]
pub struct SessionInfo {
    pub session_id: String,
    /// Which AI command line tool registered.
    pub cli: String,
    /// Base URL of that tool's HTTP server, when it has one.
    pub server_url: String,
    /// Command template with `{{session_id}}` and `{{prompt}}` placeholders.
    pub notify_command: String,
}

/// A note as stored in `lines.json`.
#[derive(Debug, Clone)]
pub struct LinesEntry {
    pub id: String,
    pub file: String,
    pub line: usize,
    pub panel: String,
    pub comment: String,
    pub rationale: Option<String>,
    pub source: NoteSource,
    pub author: String,
    pub created_at: String,
    pub status: NoteStatus,
    pub tags: Vec<String>,
    pub confidence: Option<String>,
}

/// The stored notes of a repository.
#[derive(Debug, Clone)]
pub struct LinesFile {
    pub version: usize,
    pub revision: u64,
    pub session: Option<SessionInfo>,
    pub workspace_path: Option<String>,
    pub notes: Vec<LinesEntry>,
}

/// The views of optional strings.
pub open spec fn opt_view(o: Option<String>) -> Option<Seq<char>> {
    match o {
        Some(s) => Some(s@),
        None => None,
    }
}

/// The positions of the notes on file `name`, ascending, among the first `n`.
pub open spec fn notes_on_before(notes: Seq<LinesEntry>, name: Seq<char>, n: int) -> Seq<usize>
    decreases n,
{
    if n <= 0 {
        seq![]
    } else if notes[n - 1].file@ == name {
        notes_on_before(notes, name, n - 1).push((n - 1) as usize)
    } else {
        notes_on_before(notes, name, n - 1)
    }
}

impl LinesFile {
    /// The positions of the notes on file `name`, in order (what the notes endpoint for
    /// one file answers with).
    pub fn notes_for_file(&self, name: &str) -> (r: Vec<usize>)
        ensures
            r@ == notes_on_before(self.notes@, name@, self.notes@.len() as int),
    {
        let mut r: Vec<usize> = Vec::new();
        let mut i: usize = 0;
        while i < self.notes.len()
            invariant
                i <= self.notes@.len(),
                r@ == notes_on_before(self.notes@, name@, i as int),
            decreases self.notes@.len() - i,
        {
            if chars_eq(&chars_of(self.notes[i].file.as_str()), &chars_of(name)) {
                r.push(i);
            }
            i = i + 1;
        }
        r
    }

    /// An empty notes file: version 1, revision 0, no session, no notes.
    pub fn new() -> (f: LinesFile)
        ensures
            f.version == 1,
            f.revision == 0,
            f.session is None,
            f.workspace_path is None,
            f.notes@.len() == 0,
    {
        LinesFile { version: 1, revision: 0, session: None, workspace_path: None, notes: Vec::new() }
    }

    /// The notes file as loaded for the repository at `repo_path`.
    pub fn with_workspace(self, repo_path: &str) -> (f: LinesFile)
        ensures
            f.version == self.version,
            f.revision == self.revision,
            f.notes@ == self.notes@,
            f.workspace_path matches Some(p) && p@ == repo_path@,
    {
        let mut f = self;
        f.workspace_path = Some(owned(repo_path));
        f
    }

    /// A notes file of the legacy format (a bare list of notes): version 1, revision 0.
    pub fn from_legacy(notes: Vec<LinesEntry>, repo_path: &str) -> (f: LinesFile)
        ensures
            f.version == 1,
            f.revision == 0,
            f.session is None,
            f.notes@ == notes@,
            f.workspace_path matches Some(p) && p@ == repo_path@,
    {
        LinesFile { version: 1, revision: 0, session: None, workspace_path: Some(owned(repo_path)), notes }
    }

    /// The file as it is written: version 1 and the next revision (wrapping), so that
    /// agents polling it see a change.
    pub fn prepare_for_save(self) -> (f: LinesFile)
        ensures
            f.version == 1,
            f.revision == (if self.revision == u64::MAX { 0 } else { self.revision + 1 }),
            f.notes@ == self.notes@,
            f.session == self.session,
            f.workspace_path == self.workspace_path,
    {
        let mut f = self;
        f.version = 1;
        f.revision = f.revision.wrapping_add(1);
        f
    }
}

impl LinesEntry {
    /// The note shown in the diff view for this stored entry; it is on the old side when
    /// its panel is `Old`.
    pub fn to_comment_note(&self) -> (n: CommentNote)
        ensures
            n.id@ == self.id@,
            n.text@ == self.comment@,
            n.is_old == (self.panel@ == "Old"@),
            n.source == self.source,
            n.author@ == self.author@,
            n.created_at@ == self.created_at@,
            n.status == self.status,
            strs(n.tags@) == strs(self.tags@),
            opt_view(n.confidence) == opt_view(self.confidence),
            opt_view(n.rationale) == opt_view(self.rationale),
    {
        let old = owned("Old");
        CommentNote {
            id: self.id.clone(),
            text: self.comment.clone(),
            is_old: self.panel == old,
            source: self.source,
            author: self.author.clone(),
            created_at: self.created_at.clone(),
            status: self.status,
            tags: crate::model::clone_strings(&self.tags),
            confidence: match &self.confidence {
                Some(c) => Some(c.clone()),
                None => None,
            },
            rationale: match &self.rationale {
                Some(r) => Some(r.clone()),
                None => None,
            },
        }
    }

    /// A new entry by the user, created now, not yet sent.
    pub fn new_user(id: String, file: String, line: usize, panel: &str, comment: String) -> (e: LinesEntry)
        ensures
            e.id@ == id@,
            e.file@ == file@,
            e.line == line,
            e.panel@ == panel@,
            e.comment@ == comment@,
            e.rationale is None,
            e.source == NoteSource::User,
            e.author@ == "user"@,
            exists|secs: nat, millis: nat, t: (u64, u64, u64, u64, u64, u64)|
                millis < 1000 && is_civil_time(secs, t) && e.created_at@ == iso8601(secs, millis, t),
            e.status == NoteStatus::New,
            e.tags@.len() == 0,
            e.confidence is None,
    {
        LinesEntry {
            id,
            file,
            line,
            panel: owned(panel),
            comment,
            rationale: None,
            source: NoteSource::User,
            author: owned("user"),
            created_at: now_iso8601(),
            status: NoteStatus::New,
            tags: Vec::new(),
            confidence: None,
        }
    }
}

/// The git directories named by the `gitdir:` lines of a `.git` file, in order: an
/// absolute one as written, a relative one joined to the repository path.
pub open spec fn gitdir_candidates_from(repo: Seq<char>, lines: Seq<Seq<char>>) -> Seq<Seq<char>>
    decreases lines.len(),
{
    if lines.len() == 0 {
        seq![]
    } else {
        let rest = gitdir_candidates_from(repo, lines.drop_last());
        let t = trim(lines.last());
        if has_prefix(t, "gitdir:"@) {
            let g = trim(t.skip(7));
            rest.push(if g.len() > 0 && g[0] == '/' {
                g
            } else {
                path_join(repo, g)
            })
        } else {
            rest
        }
    }
}

/// The git directories a `.git` file of a worktree or submodule points to, in the order
/// to try them; the first that exists is the git directory.
pub fn gitdir_candidates(repo_path: &str, dot_git_content: &str) -> (r: Vec<String>)
    ensures
        strs(r@) == gitdir_candidates_from(repo_path@, lines_of(dot_git_content@)),
{
    let text = chars_of(dot_git_content);
    let lines = split_lines(&text);
    let ghost lv = lines@.map_values(|v: Vec<char>| v@);
    let prefix = chars_of("gitdir:");
    proof {
        reveal_strlit("gitdir:");
    }
    let mut r: Vec<String> = Vec::new();
    let mut i: usize = 0;
    proof {
        assert(strs(r@) =~= Seq::<Seq<char>>::empty());
    }
    while i < lines.len()
        invariant
            i <= lines.len(),
            lv == lines@.map_values(|v: Vec<char>| v@),
            prefix@ == "gitdir:"@,
            "gitdir:"@.len() == 7,
            strs(r@) == gitdir_candidates_from(repo_path@, lv.take(i as int)),
        decreases lines.len() - i,
    {
        proof {
            assert(lv.take(i + 1).drop_last() == lv.take(i as int));
            assert(lv.take(i + 1).last() == lines@[i as int]@);
        }
        let t = trim_exec(&lines[i]);
        match strip_prefix(&t, &prefix) {
            Some(rest) => {
                let g = trim_exec(&rest);
                let gs = string_of(&g);
                let candidate = if g.len() > 0 && g[0] == '/' {
                    gs
                } else {
                    join_path(repo_path, gs.as_str())
                };
                let ghost before = r@;
                r.push(candidate);
                proof {
                    assert(strs(r@) == strs(before).push(candidate@));
                }
            },
            None => {},
        }
        i = i + 1;
    }
    proof {
        assert(lv.take(lv.len() as int) == lv);
    }
    r
}

/// Where notes are saved: `<git dir>/info/lines.json`, or the state-directory fallback
/// when the repository has no git directory.
pub open spec fn canonical_path_of(git_dir: Option<Seq<char>>, fallback: Seq<char>) -> Seq<char> {
    match git_dir {
        Some(g) => path_join(path_join(g, "info"@), "lines.json"@),
        None => fallback,
    }
}

/// Where notes are saved, given the repository's git directory (if any) and the
/// state-directory fallback path.
pub fn canonical_notes_path(git_dir: Option<&str>, fallback: &str) -> (p: String)
    ensures
        p@ == canonical_path_of(match git_dir {
            Some(g) => Some(g@),
            None => None,
        }, fallback@),
{
    match git_dir {
        Some(g) => {
            let info = join_path(g, "info");
            join_path(info.as_str(), "lines.json")
        },
        None => owned(fallback),
    }
}

/// The places notes may be loaded from, in order: `<git dir>/info/lines.json` and
/// `<git dir>/lines.json` when there is a git directory, then the legacy `.lines.json`
/// in the repository root, then the state-directory fallback.
pub open spec fn load_candidates_of(repo: Seq<char>, git_dir: Option<Seq<char>>, fallback: Seq<char>) -> Seq<Seq<char>> {
    let gits = match git_dir {
        Some(g) => seq![path_join(path_join(g, "info"@), "lines.json"@), path_join(g, "lines.json"@)],
        None => seq![],
    };
    gits + seq![path_join(repo, ".lines.json"@), fallback]
}

/// The places notes may be loaded from, in the order to try them.
pub fn notes_load_candidates(repo_path: &str, git_dir: Option<&str>, fallback: &str) -> (r: Vec<String>)
    ensures
        strs(r@) == load_candidates_of(repo_path@, match git_dir {
            Some(g) => Some(g@),
            None => None,
        }, fallback@),
{
    let mut r: Vec<String> = Vec::new();
    match git_dir {
        Some(g) => {
            let info = join_path(g, "info");
            r.push(join_path(info.as_str(), "lines.json"));
            r.push(join_path(g, "lines.json"));
        },
        None => {},
    }
    r.push(join_path(repo_path, ".lines.json"));
    r.push(owned(fallback));
    proof {
        let gd = match git_dir {
            Some(g) => Some(g@),
            None => None,
        };
        assert(strs(r@) =~= load_candidates_of(repo_path@, gd, fallback@));
    }
    r
}

/// Where notes are loaded from: the first candidate that exists, else where they would
/// be saved.
pub open spec fn load_path_of(candidates: Seq<Seq<char>>, exists: Seq<bool>, canonical: Seq<char>) -> Seq<char>
    decreases candidates.len(),
{
    if candidates.len() == 0 || exists.len() == 0 {
        canonical
    } else if exists[0] {
        candidates[0]
    } else {
        load_path_of(candidates.drop_first(), exists.drop_first(), canonical)
    }
}

/// The first of `candidates` that exists (`exists` telling which do), if any.
pub open spec fn first_existing(candidates: Seq<Seq<char>>, exists: Seq<bool>) -> Option<Seq<char>>
    decreases candidates.len(),
{
    if candidates.len() == 0 || exists.len() == 0 {
        None
    } else if exists[0] {
        Some(candidates[0])
    } else {
        first_existing(candidates.drop_first(), exists.drop_first())
    }
}

/// The git directory of the repository at `repo_path`: its `.git` directory when that is
/// a directory, else the first of the directories its `.git` file points to
/// (`candidates`, see `gitdir_candidates`) that exists; none when there is neither.
pub fn choose_git_dir(repo_path: &str, dot_git_is_dir: bool, candidates: &[String], exists: &[bool]) -> (r: Option<String>)
    ensures
        dot_git_is_dir ==> (r matches Some(d) && d@ == path_join(repo_path@, ".git"@)),
        !dot_git_is_dir ==> match (r, first_existing(strs(candidates@), exists@)) {
            (Some(d), Some(c)) => d@ == c,
            (None, None) => true,
            _ => false,
        },
{
    if dot_git_is_dir {
        return Some(join_path(repo_path, ".git"));
    }
    let mut i: usize = 0;
    proof {
        assert(strs(candidates@).skip(0) == strs(candidates@));
        assert(exists@.skip(0) == exists@);
    }
    while i < candidates.len() && i < exists.len()
        invariant
            !dot_git_is_dir,
            i <= candidates.len(),
            i <= exists.len(),
            first_existing(strs(candidates@), exists@) == first_existing(
                strs(candidates@).skip(i as int),
                exists@.skip(i as int),
            ),
        decreases candidates.len() - i,
    {
        if exists[i] {
            proof {
                assert(strs(candidates@).skip(i as int)[0] == candidates@[i as int]@);
            }
            return Some(owned(candidates[i].as_str()));
        }
        proof {
            assert(strs(candidates@).skip(i as int).drop_first() == strs(candidates@).skip(i + 1));
            assert(exists@.skip(i as int).drop_first() == exists@.skip(i + 1));
        }
        i = i + 1;
    }
    None
}

/// Where notes are loaded from, given which candidates exist.
pub fn resolve_load_path(candidates: &[String], exists: &[bool], canonical: &str) -> (p: String)
    ensures
        p@ == load_path_of(strs(candidates@), exists@, canonical@),
{
    let mut i: usize = 0;
    proof {
        assert(strs(candidates@).skip(0) == strs(candidates@));
        assert(exists@.skip(0) == exists@);
    }
    while i < candidates.len() && i < exists.len()
        invariant
            i <= candidates.len(),
            i <= exists.len(),
            load_path_of(strs(candidates@), exists@, canonical@) == load_path_of(
                strs(candidates@).skip(i as int),
                exists@.skip(i as int),
                canonical@,
            ),
        decreases candidates.len() - i,
    {
        if exists[i] {
            proof {
                assert(strs(candidates@).skip(i as int)[0] == candidates@[i as int]@);
            }
            return candidates[i].clone();
        }
        proof {
            assert(strs(candidates@).skip(i as int).drop_first() == strs(candidates@).skip(i + 1));
            assert(exists@.skip(i as int).drop_first() == exists@.skip(i + 1));
        }
        i = i + 1;
    }
    proof {
        assert(strs(candidates@).skip(i as int).len() == 0 || exists@.skip(i as int).len() == 0);
    }
    owned(canonical)
}

/// Whether saving must remove the legacy `.lines.json` of the repository root: when it
/// exists and is not where the notes were just written.
pub fn should_remove_legacy(legacy_exists: bool, legacy: &str, target: &str) -> (b: bool)
    ensures
        b == (legacy_exists && legacy@ != target@),
{
    let l = chars_of(legacy);
    let t = chars_of(target);
    legacy_exists && !chars_eq(&l, &t)
}

/// The lowercase hexadecimal digit of `d` (below 16).
pub open spec fn hex_char(d: nat) -> char {
    if d < 10 {
        (48 + d) as char
    } else {
        (87 + d) as char
    }
}

/// The last `n` hexadecimal digits of `h`, most significant first, zeros included.
pub open spec fn hex_digits(h: nat, n: nat) -> Seq<char>
    decreases n,
{
    if n == 0 {
        seq![]
    } else {
        hex_digits(h / 16, (n - 1) as nat).push(hex_char(h % 16))
    }
}

fn hex_char_exec(d: u64) -> (c: char)
    requires
        d < 16,
    ensures
        c == hex_char(d as nat),
{
    if d < 10 {
        ((48 + d) as u8) as char
    } else {
        ((87 + d) as u8) as char
    }
}

fn hex_digits_exec(h: u64, n: u8) -> (r: Vec<char>)
    ensures
        r@ == hex_digits(h as nat, n as nat),
    decreases n,
{
    if n == 0 {
        Vec::new()
    } else {
        let mut r = hex_digits_exec(h / 16, n - 1);
        r.push(hex_char_exec(h % 16));
        r
    }
}

/// The directory the state of a repository outside git is kept under: `$XDG_STATE_HOME`
/// when it is set, else `.local/state` under `$HOME`, or under `.` when that is not set
/// either.
pub open spec fn state_dir_of(xdg_state_home: Option<Seq<char>>, home: Option<Seq<char>>) -> Seq<char> {
    match xdg_state_home {
        Some(x) => x,
        None => path_join(
            path_join(
                match home {
                    Some(h) => h,
                    None => "."@,
                },
                ".local"@,
            ),
            "state"@,
        ),
    }
}

/// The state directory (see `state_dir_of`), given the two variables' values (none when
/// unset or unreadable).
pub fn notes_state_dir(xdg_state_home: Option<&str>, home: Option<&str>) -> (p: String)
    ensures
        p@ == state_dir_of(
            match xdg_state_home {
                Some(x) => Some(x@),
                None => None,
            },
            match home {
                Some(h) => Some(h@),
                None => None,
            },
        ),
{
    match xdg_state_home {
        Some(x) => owned(x),
        None => {
            let base = match home {
                Some(h) => h,
                None => ".",
            };
            let local = join_path(base, ".local");
            join_path(local.as_str(), "state")
        },
    }
}

/// Where the notes of a repository outside git are kept: `lazygitrs/notes/` under the
/// state directory, in a file named by the 16 lowercase hexadecimal digits of the
/// repository path's hash and `.json`.
pub open spec fn fallback_path_of(state_dir: Seq<char>, hash: u64) -> Seq<char> {
    path_join(path_join(path_join(state_dir, "lazygitrs"@), "notes"@), hex_digits(hash as nat, 16) + ".json"@)
}

/// Where the notes of a repository outside git are kept (see `fallback_path_of`).
pub fn notes_fallback_path(state_dir: &str, hash: u64) -> (p: String)
    ensures
        p@ == fallback_path_of(state_dir@, hash),
{
    let a = join_path(state_dir, "lazygitrs");
    let b = join_path(a.as_str(), "notes");
    let mut name = string_of(&hex_digits_exec(hash, 16));
    name.append(".json");
    join_path(b.as_str(), name.as_str())
}

} // verus!

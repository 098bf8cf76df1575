use vstd::prelude::*;

use crate::git::{
    args1, args2, args3, args4, expect_success, is_git, join_path, path_join, CmdOutput, GitCommand,
    GitCommands, GitError,
};
use crate::model::{File, FileStatus};
use crate::text::{
    byte_len, bytes_len, char_index_of_byte, chars_of, contains_exec, contains_seq, has_suffix,
    lines_of, prefix_bytes, slice_vec, split_at_pat, split_lines, split_pat, string_of,
};

verus! {

/// What a porcelain status code pair says: staged changes, unstaged changes, whether git
/// follows the file,
/// and the status.
pub open spec fn status_codes(x: char, y: char) -> (bool, bool, bool, FileStatus) {
    if x == '?' && y == '?' {
        (false, true, false, FileStatus::Untracked)
    } else if x == 'A' && y == ' ' {
        (true, false, true, FileStatus::Added)
    } else if x == 'A' && y == 'M' {
        (true, true, true, FileStatus::Added)
    } else if x == 'M' && y == ' ' {
        (true, false, true, FileStatus::Modified)
    } else if x == ' ' && y == 'M' {
        (false, true, true, FileStatus::Modified)
    } else if x == 'M' && y == 'M' {
        (true, true, true, FileStatus::Modified)
    } else if x == 'D' && y == ' ' {
        (true, false, true, FileStatus::Deleted)
    } else if x == ' ' && y == 'D' {
        (false, true, true, FileStatus::Deleted)
    } else if x == 'R' && (y == ' ' || y == 'M') {
        (true, false, true, FileStatus::Renamed)
    } else if x == 'C' && (y == ' ' || y == 'M') {
        (true, false, true, FileStatus::Copied)
    } else if (x == 'U' && y == 'U') || (x == 'A' && y == 'A') || (x == 'D' && y == 'D') || (x == 'U'
        && y == 'A') || (x == 'A' && y == 'U') || (x == 'U' && y == 'D') || (x == 'D' && y == 'U') {
        (false, true, true, FileStatus::Unmerged)
    } else {
        (x != ' ', y != ' ', true, FileStatus::Modified)
    }
}

/// What a porcelain code pair `XY` says of a file: `X` is the staged side, `Y` the
/// working tree. A blank `Y` means nothing unstaged; a blank `X` nothing staged; a staged
/// modification, addition, deletion, rename or copy (`X` one of `MADRC`, outside the
/// merge-conflict pairs) means staged changes; a modification or deletion in the working
/// tree (`Y` one of `MD`, after anything but a rename or copy) means unstaged changes;
/// only `??` is untracked, and it has nothing staged but is itself unstaged.
pub proof fn lemma_status_code_meaning(x: char, y: char)
    ensures
        ({
            let (staged, unstaged, in_git, status) = status_codes(x, y);
            &&& y == ' ' ==> !unstaged
            &&& x == ' ' ==> !staged
            &&& (x == 'M' || x == 'A' || x == 'D' || x == 'R' || x == 'C') && !((x == 'A' || x == 'D') && (y == x
                || y == 'U')) ==> staged
            &&& (y == 'M' || y == 'D') && x != 'R' && x != 'C' ==> unstaged
            &&& (in_git <==> !(x == '?' && y == '?'))
            &&& x == '?' && y == '?' ==> !staged && unstaged && status == FileStatus::Untracked
            &&& x == 'M' ==> status == FileStatus::Modified
            &&& x == 'A' && (y == ' ' || y == 'M') ==> status == FileStatus::Added
            &&& (x == 'D' && y == ' ') || (x == ' ' && y == 'D') ==> status == FileStatus::Deleted
            &&& x == 'R' && (y == ' ' || y == 'M') ==> status == FileStatus::Renamed
            &&& x == 'C' && (y == ' ' || y == 'M') ==> status == FileStatus::Copied
            &&& (x == 'U' || y == 'U') ==> status == FileStatus::Unmerged || status == FileStatus::Modified
        }),
{
}

/// Reads a porcelain status code pair.
pub fn parse_status_codes(x: char, y: char) -> (r: (bool, bool, bool, FileStatus))
    ensures
        r == status_codes(x, y),
{
    if x == '?' && y == '?' {
        (false, true, false, FileStatus::Untracked)
    } else if x == 'A' && y == ' ' {
        (true, false, true, FileStatus::Added)
    } else if x == 'A' && y == 'M' {
        (true, true, true, FileStatus::Added)
    } else if x == 'M' && y == ' ' {
        (true, false, true, FileStatus::Modified)
    } else if x == ' ' && y == 'M' {
        (false, true, true, FileStatus::Modified)
    } else if x == 'M' && y == 'M' {
        (true, true, true, FileStatus::Modified)
    } else if x == 'D' && y == ' ' {
        (true, false, true, FileStatus::Deleted)
    } else if x == ' ' && y == 'D' {
        (false, true, true, FileStatus::Deleted)
    } else if x == 'R' && (y == ' ' || y == 'M') {
        (true, false, true, FileStatus::Renamed)
    } else if x == 'C' && (y == ' ' || y == 'M') {
        (true, false, true, FileStatus::Copied)
    } else if (x == 'U' && y == 'U') || (x == 'A' && y == 'A') || (x == 'D' && y == 'D') || (x == 'U'
        && y == 'A') || (x == 'A' && y == 'U') || (x == 'U' && y == 'D') || (x == 'D' && y == 'U') {
        (false, true, true, FileStatus::Unmerged)
    } else {
        (x != ' ', y != ' ', true, FileStatus::Modified)
    }
}

/// A status line whose fourth byte starts a character (so the path can be cut there),
/// or one too short to hold a path.
pub open spec fn status_line_ok(line: Seq<char>) -> bool {
    byte_len(line) < 4 || exists|k: int| 0 <= k <= line.len() && prefix_bytes(line, k) == 3
}

/// The status lines that describe a file: those of at least four bytes.
pub open spec fn status_entries(lines: Seq<Seq<char>>) -> Seq<Seq<char>>
    decreases lines.len(),
{
    if lines.len() == 0 {
        seq![]
    } else if byte_len(lines.last()) < 4 {
        status_entries(lines.drop_last())
    } else {
        status_entries(lines.drop_last()).push(lines.last())
    }
}

/// The path of a status line: what follows its first three bytes.
pub open spec fn status_path(line: Seq<char>) -> Seq<char> {
    line.skip(choose|k: int| 0 <= k <= line.len() && prefix_bytes(line, k) == 3)
}

/// The name shown for a path: for a rename `old -> new`, the new name.
pub open spec fn display_name_of(name: Seq<char>) -> Seq<char> {
    if contains_seq(name, " -> "@) {
        split_pat(name, " -> "@).last()
    } else {
        name
    }
}

/// The file described by a porcelain status line.
pub open spec fn file_from_status_line(f: File, line: Seq<char>) -> bool {
    let x = line[0];
    let y = if line.len() > 1 {
        line[1]
    } else {
        ' '
    };
    let (staged, unstaged, is_tracked_file, status) = status_codes(x, y);
    let name = status_path(line);
    &&& f.short_status@ == seq![x, y]
    &&& f.name@ == name
    &&& f.display_name@ == display_name_of(name)
    &&& f.status == status
    &&& f.has_staged_changes == staged
    &&& f.has_unstaged_changes == unstaged
    &&& f.git_tracked == is_tracked_file
    &&& f.added == (x == 'A' || y == 'A' || !is_tracked_file)
    &&& f.deleted == (x == 'D' || y == 'D')
    &&& f.has_merge_conflicts == (x == 'U' || y == 'U' || (x == 'A' && y == 'A') || (x == 'D' && y == 'D'))
}

/// A file read from a status line `XY path` has staged changes when `X` is a staged
/// modification, addition, deletion, rename or copy (outside the conflict pairs), none
/// when `X` is blank, and no unstaged changes when `Y` is blank; it is untracked only
/// for `??`, and its status code is `XY` itself.
pub proof fn lemma_status_line_file(f: File, line: Seq<char>)
    requires
        line.len() >= 2,
        file_from_status_line(f, line),
    ensures
        ({
            let x = line[0];
            let y = line[1];
            &&& f.short_status@ == seq![x, y]
            &&& (x == 'M' || x == 'A' || x == 'D' || x == 'R' || x == 'C') && !((x == 'A' || x == 'D') && (y == x
                || y == 'U')) ==> f.has_staged_changes
            &&& x == ' ' ==> !f.has_staged_changes
            &&& y == ' ' ==> !f.has_unstaged_changes
            &&& (y == 'M' || y == 'D') && x != 'R' && x != 'C' ==> f.has_unstaged_changes
            &&& (f.git_tracked <==> !(x == '?' && y == '?'))
            &&& x == 'M' ==> f.status == FileStatus::Modified
        }),
{
    lemma_status_code_meaning(line[0], line[1]);
}

/// The shown name of a path.
fn display_name(name: &[char]) -> (r: Vec<char>)
    ensures
        r@ == display_name_of(name@),
{
    let arrow = chars_of(" -> ");
    proof {
        reveal_strlit(" -> ");
    }
    if contains_exec(name, &arrow) {
        let mut parts = split_at_pat(name, &arrow);
        proof {
            crate::text::lemma_split_pat_nonempty(name@, arrow@);
        }
        parts.pop().unwrap()
    } else {
        slice_vec(name, 0, name.len())
    }
}

/// The file of one status line of at least four bytes.
fn file_of_line(line: &[char]) -> (f: File)
    requires
        byte_len(line@) >= 4,
        status_line_ok(line@),
    ensures
        file_from_status_line(f, line@),
{
    proof {
        if line@.len() == 0 {
            assert(byte_len(line@) == 0);
        }
    }
    let x = line[0];
    let y = if line.len() > 1 {
        line[1]
    } else {
        ' '
    };
    let k = match char_index_of_byte(line, 3) {
        Some(k) => k,
        None => {
            proof {
                let k0 = choose|k: int| 0 <= k <= line@.len() && prefix_bytes(line@, k) == 3;
                assert(prefix_bytes(line@, k0) != 3);
            }
            0
        },
    };
    proof {
        let k0 = choose|k: int| 0 <= k <= line@.len() && prefix_bytes(line@, k) == 3;
        if k0 < k {
            crate::text::lemma_prefix_bytes_mono(line@, k0, k as int);
        }
        if k0 > k {
            crate::text::lemma_prefix_bytes_mono(line@, k as int, k0);
        }
        assert(k0 == k);
    }
    let name = slice_vec(line, k, line.len());
    proof {
        assert(name@ == line@.skip(k as int));
    }
    let shown = display_name(&name);
    let (staged, unstaged, is_tracked_file, status) = parse_status_codes(x, y);
    let mut short: Vec<char> = Vec::new();
    short.push(x);
    short.push(y);
    proof {
        assert(short@ =~= seq![x, y]);
    }
    File {
        name: string_of(&name),
        display_name: string_of(&shown),
        status,
        has_staged_changes: staged,
        has_unstaged_changes: unstaged,
        git_tracked: is_tracked_file,
        added: x == 'A' || y == 'A' || !is_tracked_file,
        deleted: x == 'D' || y == 'D',
        has_merge_conflicts: x == 'U' || y == 'U' || (x == 'A' && y == 'A') || (x == 'D' && y == 'D'),
        short_status: string_of(&short),
    }
}

/// Reads the output of `load_files` (`git status --porcelain -u`): an error when git
/// failed, else one file per status line of at least four bytes.
pub fn parse_files(out: &CmdOutput) -> (r: Result<Vec<File>, GitError>)
    requires
        forall|i: int| 0 <= i < lines_of(out.stdout@).len() ==> status_line_ok(#[trigger] lines_of(out.stdout@)[i]),
    ensures
        r is Ok <==> out.success,
        r matches Err(e) ==> e is CommandFailed,
        r matches Ok(files) ==> {
            let entries = status_entries(lines_of(out.stdout@));
            &&& files@.len() == entries.len()
            &&& forall|k: int| 0 <= k < files@.len() ==> file_from_status_line(#[trigger] files@[k], entries[k])
        },
{
    expect_success(out)?;
    let text = chars_of(out.stdout.as_str());
    let lines = split_lines(&text);
    let ghost lv = lines@.map_values(|v: Vec<char>| v@);
    let mut files: Vec<File> = Vec::new();
    let mut i: usize = 0;
    while i < lines.len()
        invariant
            i <= lines.len(),
            lv == lines@.map_values(|v: Vec<char>| v@),
            lv == lines_of(out.stdout@),
            forall|j: int| 0 <= j < lv.len() ==> status_line_ok(#[trigger] lv[j]),
            files@.len() == status_entries(lv.take(i as int)).len(),
            forall|k: int| 0 <= k < files@.len() ==> file_from_status_line(#[trigger] files@[k], status_entries(lv.take(i as int))[k]),
        decreases lines.len() - i,
    {
        proof {
            assert(lv.take(i + 1).drop_last() == lv.take(i as int));
            assert(lv.take(i + 1).last() == lines@[i as int]@);
            assert(status_line_ok(lv[i as int]));
        }
        if bytes_len(&lines[i]) >= 4 {
            let f = file_of_line(&lines[i]);
            files.push(f);
        }
        i = i + 1;
    }
    proof {
        assert(lv.take(lv.len() as int) == lv);
    }
    Ok(files)
}

/// `contents` of an ignore file with `path` added on a line of its own.
pub open spec fn with_ignore_entry(contents: Seq<char>, path: Seq<char>) -> Seq<char> {
    let base = if contents.len() > 0 && contents.last() != '\n' {
        contents.push('\n')
    } else {
        contents
    };
    base + path + seq!['\n']
}

/// Adds `path` on a line of its own to the contents of an ignore file, ending the last
/// line first when it is not ended.
pub fn append_ignore_entry(contents: &str, path: &str) -> (r: String)
    ensures
        r@ == with_ignore_entry(contents@, path@),
{
    let c = chars_of(contents);
    let needs_newline = c.len() > 0 && c[c.len() - 1] != '\n';
    let mut r = String::from_str(contents);
    if needs_newline {
        r.append("\n");
    }
    r.append(path);
    r.append("\n");
    proof {
        reveal_strlit("\n");
        assert(r@ =~= with_ignore_entry(contents@, path@));
    }
    r
}

impl GitCommands {
    /// The command listing the changed files (`git status --porcelain -u`).
    pub fn load_files(&self) -> (c: GitCommand)
        ensures
            is_git(c, self.path(), seq!["status"@, "--porcelain"@, "-u"@]),
    {
        self.git(args3("status", "--porcelain", "-u"))
    }

    /// Same as `load_files`.
    pub fn refresh_files(&self) -> (c: GitCommand)
        ensures
            is_git(c, self.path(), seq!["status"@, "--porcelain"@, "-u"@]),
    {
        self.load_files()
    }

    /// The command staging `path`; it must succeed.
    pub fn stage_file(&self, path: &str) -> (c: GitCommand)
        ensures
            is_git(c, self.path(), seq!["add"@, "--"@, path@]),
    {
        self.git(args3("add", "--", path))
    }

    /// The command unstaging `path`; it must succeed.
    pub fn unstage_file(&self, path: &str) -> (c: GitCommand)
        ensures
            is_git(c, self.path(), seq!["reset"@, "HEAD"@, "--"@, path@]),
    {
        self.git(args4("reset", "HEAD", "--", path))
    }

    /// The command staging everything; it must succeed.
    pub fn stage_all(&self) -> (c: GitCommand)
        ensures
            is_git(c, self.path(), seq!["add"@, "-A"@]),
    {
        self.git(args2("add", "-A"))
    }

    /// The command unstaging everything; it must succeed.
    pub fn unstage_all(&self) -> (c: GitCommand)
        ensures
            is_git(c, self.path(), seq!["reset"@, "HEAD"@]),
    {
        self.git(args2("reset", "HEAD"))
    }

    /// The commands discarding the changes of `path`: first an unstage whose outcome does
    /// not matter, then, for a file git follows, a checkout that must succeed; an added file
    /// gets no second command, as it is deleted from disk instead.
    pub fn discard_file(&self, path: &str, added: bool) -> (r: (GitCommand, Option<GitCommand>))
        ensures
            is_git(r.0, self.path(), seq!["reset"@, "HEAD"@, "--"@, path@]),
            added ==> r.1 is None,
            !added ==> (r.1 matches Some(c) && is_git(c, self.path(), seq!["checkout"@, "--"@, path@])),
    {
        let unstage = self.git(args4("reset", "HEAD", "--", path));
        if added {
            (unstage, None)
        } else {
            (unstage, Some(self.git(args3("checkout", "--", path))))
        }
    }

    /// Where the deleted copy of an added file lies.
    pub fn discard_target(&self, path: &str) -> (p: String)
        ensures
            p@ == path_join(self.path(), path@),
    {
        join_path(self.repo_path(), path)
    }

    /// The `.gitignore` file that `ignore_file` extends with `append_ignore_entry`.
    pub fn ignore_file(&self) -> (p: String)
        ensures
            p@ == path_join(self.path(), ".gitignore"@),
    {
        join_path(self.repo_path(), ".gitignore")
    }

    /// The `.git/info/exclude` file that `exclude_file` extends with `append_ignore_entry`.
    pub fn exclude_file(&self) -> (p: String)
        ensures
            p@ == path_join(self.path(), ".git/info/exclude"@),
    {
        join_path(self.repo_path(), ".git/info/exclude")
    }
}

} // verus!

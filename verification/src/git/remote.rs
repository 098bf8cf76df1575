use vstd::prelude::*;

use crate::git::{
    args1, args2, args3, args4, args7, expect_success, is_git, CmdOutput, GitCommand, GitCommands,
    GitError,
};
use crate::git::commit::strings_of;
use crate::model::{clone_strings, strs, Remote, RemoteBranch};
use crate::text::{
    cat, cat3, chars_eq, chars_of, has_prefix, has_suffix, index_of, lines_of, owned, slice_vec,
    split_lines, split_words, splitn_at_char, splitn_char, string_of, strip_prefix, trim, trim_end_char,
    trim_end_char_exec, trim_exec, words,
};

verus! {

/// The index of the remote called `name` at or after `i`, or -1.
pub open spec fn find_remote(rs: Seq<(Seq<char>, Seq<Seq<char>>)>, name: Seq<char>, i: int) -> int
    decreases rs.len() - i,
{
    if i < 0 || i >= rs.len() {
        -1
    } else if rs[i].0 == name {
        i
    } else {
        find_remote(rs, name, i + 1)
    }
}

/// Records that remote `name` has `url`: a new remote, or one more URL of a known
/// remote unless it already has it.
pub open spec fn add_remote_url(rs: Seq<(Seq<char>, Seq<Seq<char>>)>, name: Seq<char>, url: Seq<char>) -> Seq<
    (Seq<char>, Seq<Seq<char>>),
> {
    let i = find_remote(rs, name, 0);
    if i < 0 {
        rs.push((name, seq![url]))
    } else if rs[i].1.contains(url) {
        rs
    } else {
        rs.update(i, (name, rs[i].1.push(url)))
    }
}

/// The remotes named by `git remote -v` lines, in order of first appearance, each with
/// its distinct URLs; lines with fewer than two words are skipped.
pub open spec fn remotes_from(lines: Seq<Seq<char>>) -> Seq<(Seq<char>, Seq<Seq<char>>)>
    decreases lines.len(),
{
    if lines.len() == 0 {
        seq![]
    } else {
        let rest = remotes_from(lines.drop_last());
        let w = words(lines.last());
        if w.len() < 2 {
            rest
        } else {
            add_remote_url(rest, w[0], w[1])
        }
    }
}

/// The names and URLs of remotes.
pub open spec fn remotes_view(v: Seq<Remote>) -> Seq<(Seq<char>, Seq<Seq<char>>)> {
    v.map_values(|r: Remote| (r.name@, strs(r.urls@)))
}

/// Whether `url` is one of `urls`.
fn has_url(urls: &Vec<String>, url: &String) -> (b: bool)
    ensures
        b == strs(urls@).contains(url@),
{
    let mut i: usize = 0;
    while i < urls.len()
        invariant
            i <= urls.len(),
            forall|k: int| 0 <= k < i ==> urls@[k]@ != url@,
        decreases urls.len() - i,
    {
        if urls[i] == *url {
            proof {
                assert(strs(urls@)[i as int] == url@);
            }
            return true;
        }
        i = i + 1;
    }
    proof {
        if strs(urls@).contains(url@) {
            let k = choose|k: int| 0 <= k < strs(urls@).len() && strs(urls@)[k] == url@;
            assert(urls@[k]@ == url@);
        }
    }
    false
}

/// Reads the output of `load_remotes`: nothing when git failed, else the remotes it
/// names with their URLs; their branches are loaded separately.
pub fn parse_remotes(out: &CmdOutput) -> (r: Vec<Remote>)
    ensures
        !out.success ==> r@.len() == 0,
        out.success ==> remotes_view(r@) == remotes_from(lines_of(out.stdout@)),
        forall|k: int| 0 <= k < r@.len() ==> (#[trigger] r@[k]).branches@.len() == 0,
{
    let mut r: Vec<Remote> = Vec::new();
    if !out.success {
        return r;
    }
    let text = chars_of(out.stdout.as_str());
    let lines = split_lines(&text);
    let ghost lv = lines@.map_values(|v: Vec<char>| v@);
    let mut i: usize = 0;
    proof {
        assert(remotes_view(r@) =~= remotes_from(lv.take(0)));
    }
    while i < lines.len()
        invariant
            i <= lines.len(),
            lv == lines@.map_values(|v: Vec<char>| v@),
            remotes_view(r@) == remotes_from(lv.take(i as int)),
            forall|k: int| 0 <= k < r@.len() ==> (#[trigger] r@[k]).branches@.len() == 0,
        decreases lines.len() - i,
    {
        proof {
            assert(lv.take(i + 1).drop_last() == lv.take(i as int));
            assert(lv.take(i + 1).last() == lines@[i as int]@);
        }
        let w = split_words(&lines[i]);
        if w.len() >= 2 {
            let name = string_of(&w[0]);
            let url = string_of(&w[1]);
            let ghost rv = remotes_view(r@);
            proof {
                assert(w@[0]@ == words(lv[i as int])[0]);
                assert(w@[1]@ == words(lv[i as int])[1]);
            }
            let mut j: usize = 0;
            while j < r.len() && !(r[j].name == name)
                invariant
                    j <= r@.len(),
                    rv == remotes_view(r@),
                    find_remote(rv, name@, 0) == find_remote(rv, name@, j as int),
                decreases r@.len() - j,
            {
                j = j + 1;
            }
            if j < r.len() {
                proof {
                    assert(find_remote(rv, name@, 0) == j);
                }
                if !has_url(&r[j].urls, &url) {
                    let mut urls = clone_strings(&r[j].urls);
                    let ghost before_urls = urls@;
                    urls.push(url);
                    proof {
                        assert(strs(urls@) == strs(before_urls).push(url@));
                    }
                    let entry = Remote { name, urls, branches: Vec::new() };
                    r.set(j, entry);
                    proof {
                        assert(remotes_view(r@) =~= rv.update(j as int, (name@, rv[j as int].1.push(url@))));
                    }
                }
            } else {
                proof {
                    assert(find_remote(rv, name@, 0) == -1);
                }
                let mut urls: Vec<String> = Vec::new();
                urls.push(url);
                proof {
                    assert(strs(urls@) =~= seq![url@]);
                }
                let entry = Remote { name, urls, branches: Vec::new() };
                r.push(entry);
                proof {
                    assert(remotes_view(r@) =~= rv.push((name@, seq![url@])));
                }
            }
        }
        i = i + 1;
    }
    proof {
        assert(lv.take(lv.len() as int) == lv);
    }
    r
}

/// The branch entries of `git for-each-ref` output for remote `remote`: the lines with
/// two `|`-separated fields whose name, without the `<remote>/` prefix, is neither
/// `HEAD` nor the remote's own name; each as (branch name, hash).
pub open spec fn remote_branches_from(lines: Seq<Seq<char>>, remote: Seq<char>) -> Seq<(Seq<char>, Seq<char>)>
    decreases lines.len(),
{
    if lines.len() == 0 {
        seq![]
    } else {
        let rest = remote_branches_from(lines.drop_last(), remote);
        let parts = splitn_char(lines.last(), '|', 2);
        if parts.len() < 2 {
            rest
        } else {
            let full = parts[0];
            let prefix = remote + "/"@;
            let name = if has_prefix(full, prefix) {
                full.skip(prefix.len() as int)
            } else {
                full
            };
            if name == "HEAD"@ || name == remote {
                rest
            } else {
                rest.push((name, parts[1]))
            }
        }
    }
}

/// Reads the output of `load_remote_branches` for `remote`: nothing when git failed,
/// else its branches.
pub fn parse_remote_branches(out: &CmdOutput, remote: &str) -> (r: Vec<RemoteBranch>)
    ensures
        !out.success ==> r@.len() == 0,
        out.success ==> r@.map_values(|b: RemoteBranch| (b.name@, b.hash@)) == remote_branches_from(lines_of(out.stdout@), remote@),
        forall|k: int| 0 <= k < r@.len() ==> (#[trigger] r@[k]).remote_name@ == remote@,
{
    let mut r: Vec<RemoteBranch> = Vec::new();
    if !out.success {
        return r;
    }
    let text = chars_of(out.stdout.as_str());
    let lines = split_lines(&text);
    let ghost lv = lines@.map_values(|v: Vec<char>| v@);
    let rem = chars_of(remote);
    let prefix_s = cat(remote, "/");
    let prefix = chars_of(prefix_s.as_str());
    let head = chars_of("HEAD");
    let mut i: usize = 0;
    proof {
        assert(r@.map_values(|b: RemoteBranch| (b.name@, b.hash@)) =~= remote_branches_from(lv.take(0), remote@));
    }
    while i < lines.len()
        invariant
            i <= lines.len(),
            lv == lines@.map_values(|v: Vec<char>| v@),
            rem@ == remote@,
            prefix@ == remote@ + "/"@,
            head@ == "HEAD"@,
            r@.map_values(|b: RemoteBranch| (b.name@, b.hash@)) == remote_branches_from(lv.take(i as int), remote@),
            forall|k: int| 0 <= k < r@.len() ==> (#[trigger] r@[k]).remote_name@ == remote@,
        decreases lines.len() - i,
    {
        proof {
            assert(lv.take(i + 1).drop_last() == lv.take(i as int));
            assert(lv.take(i + 1).last() == lines@[i as int]@);
        }
        let parts = splitn_at_char(&lines[i], '|', 2);
        let ghost pv = parts@.map_values(|v: Vec<char>| v@);
        proof {
            assert(pv == splitn_char(lv[i as int], '|', 2));
            assert(pv.len() == parts@.len());
        }
        if parts.len() >= 2 {
            proof {
                assert(pv[0] == parts@[0]@);
                assert(pv[1] == parts@[1]@);
            }
            let name = match strip_prefix(&parts[0], &prefix) {
                Some(n) => n,
                None => slice_vec(&parts[0], 0, parts[0].len()),
            };
            proof {
                let full = pv[0];
                let pre = remote@ + "/"@;
                let expect = if has_prefix(full, pre) { full.skip(pre.len() as int) } else { full };
                assert(name@ == expect);
            }
            if !chars_eq(&name, &head) && !chars_eq(&name, &rem) {
                let ghost before = r@;
                let b = RemoteBranch { name: string_of(&name), remote_name: owned(remote), hash: string_of(&parts[1]) };
                r.push(b);
                proof {
                    assert(r@.map_values(|b: RemoteBranch| (b.name@, b.hash@)) == before.map_values(|b: RemoteBranch| (b.name@, b.hash@)).push((name@, parts@[1]@)));
                }
            }
        }
        i = i + 1;
    }
    proof {
        assert(lv.take(lv.len() as int) == lv);
    }
    r
}

/// An SSH remote `git@host:path` as `https://host/path`; other URLs unchanged.
pub open spec fn ssh_to_https(url: Seq<char>) -> Seq<char> {
    if has_prefix(url, "git@"@) {
        let rest = url.skip(4);
        let i = index_of(rest, ':');
        "https://"@ + (if i < 0 {
            rest
        } else {
            rest.take(i) + "/"@ + rest.skip(i + 1)
        })
    } else {
        url
    }
}

/// `u` without a trailing `.git`.
pub open spec fn strip_git_suffix(u: Seq<char>) -> Seq<char> {
    if has_suffix(u, ".git"@) {
        u.take(u.len() - 4)
    } else {
        u
    }
}

/// The web address of a remote URL: `git@host:path` becomes `https://host/path`, then a
/// trailing `.git` and trailing slashes are removed.
pub open spec fn https_url(url: Seq<char>) -> Seq<char> {
    trim_end_char(strip_git_suffix(ssh_to_https(url)), '/')
}

/// Converts a git remote URL (SSH or HTTPS) to a plain HTTPS base URL.
pub fn remote_url_to_https(url: &str) -> (r: String)
    ensures
        r@ == https_url(url@),
{
    let u = chars_of(url);
    let git_at = chars_of("git@");
    proof {
        reveal_strlit("git@");
        reveal_strlit("https://");
        reveal_strlit("/");
        reveal_strlit(".git");
    }
    let u1: Vec<char> = match strip_prefix(&u, &git_at) {
        Some(rest) => {
            let mut v = chars_of("https://");
            let mut k: usize = 0;
            while k < rest.len() && rest[k] != ':'
                invariant
                    k <= rest.len(),
                    forall|m: int| 0 <= m < k ==> rest@[m] != ':',
                decreases rest.len() - k,
            {
                k = k + 1;
            }
            proof {
                if k < rest.len() {
                    crate::text::lemma_index_of_at(rest@, ':', k as int);
                } else {
                    crate::text::lemma_index_of_none(rest@, ':');
                }
            }
            let before = slice_vec(&rest, 0, k);
            crate::text::push_all(&mut v, &before);
            if k < rest.len() {
                v.push('/');
                let after = slice_vec(&rest, k + 1, rest.len());
                crate::text::push_all(&mut v, &after);
                proof {
                    assert(rest@.take(k as int) == before@);
                    assert(rest@.skip(k + 1) == after@);
                    assert(v@ =~= "https://"@ + (rest@.take(k as int) + "/"@ + rest@.skip(k + 1)));
                }
            } else {
                proof {
                    assert(before@ == rest@);
                }
            }
            v
        },
        None => slice_vec(&u, 0, u.len()),
    };
    proof {
        assert(u1@ == ssh_to_https(url@));
    }
    let dot_git = chars_of(".git");
    let u2 = if crate::text::ends_with(&u1, &dot_git) {
        slice_vec(&u1, 0, u1.len() - 4)
    } else {
        u1
    };
    proof {
        assert(u2@ == strip_git_suffix(ssh_to_https(url@)));
    }
    let t = trim_end_char_exec(&u2, '/');
    string_of(&t)
}

/// The web address of commit `hash` from the output of `get_remote_url`, which must
/// have succeeded.
pub fn get_commit_url(out: &CmdOutput, hash: &str) -> (r: Result<String, GitError>)
    ensures
        r is Ok <==> out.success,
        r matches Err(e) ==> e is CommandFailed,
        r matches Ok(s) ==> s@ == https_url(trim(out.stdout@)) + "/commit/"@ + hash@,
{
    let base = get_repo_url(out)?;
    Ok(cat3(base.as_str(), "/commit/", hash))
}

/// The web address of the repository from the output of `get_remote_url`, which must
/// have succeeded.
pub fn get_repo_url(out: &CmdOutput) -> (r: Result<String, GitError>)
    ensures
        r is Ok <==> out.success,
        r matches Err(e) ==> e is CommandFailed,
        r matches Ok(s) ==> s@ == https_url(trim(out.stdout@)),
{
    expect_success(out)?;
    let text = chars_of(out.stdout.as_str());
    let t = trim_exec(&text);
    let ts = string_of(&t);
    Ok(remote_url_to_https(ts.as_str()))
}

/// The address for opening a pull request from `branch`, from the output of
/// `get_remote_url`, which must have succeeded.
pub fn get_pr_create_url(out: &CmdOutput, branch: &str) -> (r: Result<String, GitError>)
    ensures
        r is Ok <==> out.success,
        r matches Err(e) ==> e is CommandFailed,
        r matches Ok(s) ==> s@ == https_url(trim(out.stdout@)) + "/compare/"@ + branch@ + "?expand=1"@,
{
    let base = get_repo_url(out)?;
    let mut s = cat3(base.as_str(), "/compare/", branch);
    s.append("?expand=1");
    Ok(s)
}

/// The address of the pull request of `branch` from the output of `pr_view`: its
/// trimmed output when `gh` succeeded and printed something, else no pull request.
pub fn get_pr_url(out: &CmdOutput, branch: &str) -> (r: Result<String, GitError>)
    ensures
        r is Ok <==> (out.success && trim(out.stdout@).len() > 0),
        r matches Ok(s) ==> s@ == trim(out.stdout@),
        r matches Err(GitError::NoPullRequest { branch: b }) ==> b@ == branch@,
        r matches Err(e) ==> e is NoPullRequest,
{
    let text = chars_of(out.stdout.as_str());
    let t = trim_exec(&text);
    if out.success && t.len() > 0 {
        Ok(string_of(&t))
    } else {
        Err(GitError::NoPullRequest { branch: owned(branch) })
    }
}

impl GitCommands {
    /// The command listing remotes with their URLs (`git remote -v`).
    pub fn load_remotes(&self) -> (c: GitCommand)
        ensures
            is_git(c, self.path(), seq!["remote"@, "-v"@]),
    {
        self.git(args2("remote", "-v"))
    }

    /// The command listing the branches of remote `remote` as `name|hash`.
    pub fn load_remote_branches(&self, remote: &str) -> (c: GitCommand)
        ensures
            is_git(c, self.path(), seq![
                "for-each-ref"@,
                "--format=%(refname:short)|%(objectname:short)"@,
                "refs/remotes/"@ + remote@ + "/"@,
            ]),
    {
        let refs = cat3("refs/remotes/", remote, "/");
        self.git(args3("for-each-ref", "--format=%(refname:short)|%(objectname:short)", refs.as_str()))
    }

    /// The command adding remote `name` at `url`; it must succeed.
    pub fn add_remote(&self, name: &str, url: &str) -> (c: GitCommand)
        ensures
            is_git(c, self.path(), seq!["remote"@, "add"@, name@, url@]),
    {
        self.git(args4("remote", "add", name, url))
    }

    /// The command removing remote `name`; it must succeed.
    pub fn delete_remote(&self, name: &str) -> (c: GitCommand)
        ensures
            is_git(c, self.path(), seq!["remote"@, "remove"@, name@]),
    {
        self.git(args3("remote", "remove", name))
    }

    /// The command fetching `remote`; it must succeed.
    pub fn fetch(&self, remote: &str) -> (c: GitCommand)
        ensures
            is_git(c, self.path(), seq!["fetch"@, remote@]),
    {
        self.git(args2("fetch", remote))
    }

    /// The command fetching all remotes; it must succeed.
    pub fn fetch_all(&self) -> (c: GitCommand)
        ensures
            is_git(c, self.path(), seq!["fetch"@, "--all"@]),
    {
        self.git(args2("fetch", "--all"))
    }

    /// The command fetching all remotes without ever prompting on the terminal; it must
    /// succeed.
    pub fn fetch_all_background(&self) -> (c: GitCommand)
        ensures
            c.program@ == "git"@,
            c.cwd@ == self.path(),
            strs(c.args@) == seq!["fetch"@, "--all"@],
            c.env@.len() == 1,
            c.env@[0].0@ == "GIT_TERMINAL_PROMPT"@,
            c.env@[0].1@ == "0"@,
            c.stdin is None,
    {
        let mut c = self.git(args2("fetch", "--all"));
        c.env.push((owned("GIT_TERMINAL_PROMPT"), owned("0")));
        c
    }

    /// The command pulling; it must succeed.
    pub fn pull(&self) -> (c: GitCommand)
        ensures
            is_git(c, self.path(), seq!["pull"@]),
    {
        self.git(args1("pull"))
    }

    /// The command pushing, with `--force-with-lease` when forced; it must succeed.
    pub fn push(&self, force: bool) -> (c: GitCommand)
        ensures
            force ==> is_git(c, self.path(), seq!["push"@, "--force-with-lease"@]),
            !force ==> is_git(c, self.path(), seq!["push"@]),
    {
        if force {
            self.git(args2("push", "--force-with-lease"))
        } else {
            self.git(args1("push"))
        }
    }

    /// The command creating local `branch` from `remote/branch` and checking it out; it
    /// must succeed.
    pub fn checkout_remote_branch(&self, remote: &str, branch: &str) -> (c: GitCommand)
        ensures
            is_git(c, self.path(), seq!["checkout"@, "-b"@, branch@, remote@ + "/"@ + branch@]),
    {
        let r = cat3(remote, "/", branch);
        self.git(args4("checkout", "-b", branch, r.as_str()))
    }

    /// The command deleting `branch` on `remote`; it must succeed.
    pub fn delete_remote_branch(&self, remote: &str, branch: &str) -> (c: GitCommand)
        ensures
            is_git(c, self.path(), seq!["push"@, remote@, "--delete"@, branch@]),
    {
        self.git(args4("push", remote, "--delete", branch))
    }

    /// The command merging `remote/branch` with the extra whitespace-separated `args`;
    /// it must succeed.
    pub fn merge_remote_branch(&self, remote: &str, branch: &str, args: &str) -> (c: GitCommand)
        ensures
            is_git(c, self.path(), seq!["merge"@, remote@ + "/"@ + branch@] + words(args@)),
    {
        let r = cat3(remote, "/", branch);
        let mut a = args2("merge", r.as_str());
        let extra_chars = chars_of(args);
        let extra = split_words(&extra_chars);
        let extra_strings = strings_of(&extra);
        let mut i: usize = 0;
        let ghost base = strs(a@);
        while i < extra_strings.len()
            invariant
                i <= extra_strings.len(),
                strs(a@) == base + strs(extra_strings@).take(i as int),
            decreases extra_strings.len() - i,
        {
            let ghost before = a@;
            let x = extra_strings[i].clone();
            a.push(x);
            proof {
                assert(strs(a@) == strs(before).push(x@));
                assert(strs(extra_strings@).take(i + 1) == strs(extra_strings@).take(i as int).push(extra_strings@[i as int]@));
            }
            i = i + 1;
        }
        proof {
            assert(strs(extra_strings@).take(extra_strings@.len() as int) == strs(extra_strings@));
        }
        self.git(a)
    }

    /// The command rebasing onto `remote/branch`; it must succeed.
    pub fn rebase_remote_branch(&self, remote: &str, branch: &str) -> (c: GitCommand)
        ensures
            is_git(c, self.path(), seq!["rebase"@, remote@ + "/"@ + branch@]),
    {
        let r = cat3(remote, "/", branch);
        self.git(args2("rebase", r.as_str()))
    }

    /// The command pushing `branch` to `remote` and setting it as upstream; it must
    /// succeed.
    pub fn push_with_upstream(&self, remote: &str, branch: &str) -> (c: GitCommand)
        ensures
            is_git(c, self.path(), seq!["push"@, "-u"@, remote@, branch@]),
    {
        self.git(args4("push", "-u", remote, branch))
    }

    /// The command printing the URL of `origin`, read by `get_repo_url`,
    /// `get_commit_url` and `get_pr_create_url`.
    pub fn get_remote_url(&self) -> (c: GitCommand)
        ensures
            is_git(c, self.path(), seq!["remote"@, "get-url"@, "origin"@]),
    {
        self.git(args3("remote", "get-url", "origin"))
    }

    /// The `gh` command printing the URL of the pull request of `branch`, read by
    /// `get_pr_url`.
    pub fn pr_view(&self, branch: &str) -> (c: GitCommand)
        ensures
            c.program@ == "gh"@,
            c.cwd@ == self.path(),
            strs(c.args@) == seq!["pr"@, "view"@, branch@, "--json"@, "url"@, "-q"@, ".url"@],
            c.env@.len() == 0,
            c.stdin is None,
    {
        GitCommand {
            program: owned("gh"),
            cwd: owned(self.repo_path()),
            args: args7("pr", "view", branch, "--json", "url", "-q", ".url"),
            env: Vec::new(),
            stdin: None,
        }
    }
}

/// `u` without a trailing `.git`, written out.
pub open spec fn without_dot_git(u: Seq<char>) -> Seq<char> {
    if u.len() >= 4 && u.skip(u.len() - 4) == seq!['.', 'g', 'i', 't'] {
        u.take(u.len() - 4)
    } else {
        u
    }
}

/// The web address of an HTTPS (or any non-`git@`) remote URL is the URL itself without
/// a trailing `.git`, then without trailing slashes; that of an SSH URL `git@host:path`
/// is `https://host/path`, likewise without `.git` and trailing slashes. In particular a
/// URL ending in `.git` never keeps that suffix, whatever its scheme.
pub proof fn lemma_web_address_of_remote(url: Seq<char>, host: Seq<char>, path: Seq<char>)
    ensures
        !has_prefix(url, seq!['g', 'i', 't', '@']) ==> https_url(url) == trim_end_char(without_dot_git(url), '/'),
        (forall|i: int| 0 <= i < host.len() ==> host[i] != ':') ==> https_url(
            seq!['g', 'i', 't', '@'] + host + seq![':'] + path,
        ) == trim_end_char(
            without_dot_git(seq!['h', 't', 't', 'p', 's', ':', '/', '/'] + host + seq!['/'] + path),
            '/',
        ),
{
    reveal_strlit("git@");
    reveal_strlit(".git");
    reveal_strlit("https://");
    reveal_strlit("/");
    assert("git@"@ == seq!['g', 'i', 't', '@']);
    assert(".git"@ == seq!['.', 'g', 'i', 't']);
    assert("https://"@ == seq!['h', 't', 't', 'p', 's', ':', '/', '/']);
    assert("/"@ == seq!['/']);
    if forall|i: int| 0 <= i < host.len() ==> host[i] != ':' {
        let u = seq!['g', 'i', 't', '@'] + host + seq![':'] + path;
        let rest = host + seq![':'] + path;
        assert(u.take(4) == seq!['g', 'i', 't', '@']);
        assert(u.skip(4) == rest);
        assert(rest[host.len() as int] == ':');
        crate::text::lemma_index_of_at(rest, ':', host.len() as int);
        assert(rest.take(host.len() as int) == host);
        assert(rest.skip(host.len() as int + 1) == path);
        assert(ssh_to_https(u) == seq!['h', 't', 't', 'p', 's', ':', '/', '/'] + host + seq!['/'] + path);
    }
}

} // verus!

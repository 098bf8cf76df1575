use vstd::prelude::*;

use crate::model::strs;
use crate::text::owned;

verus! {

/// How many repositories the recent list keeps.
pub const MAX_RECENT_REPOS: usize = 20;

/// State kept between runs: the recently opened repositories and a few view choices.
pub struct AppState {
    /// Most recent first, each once.
    pub recent_repos: Vec<String>,
    pub startup_popup_version: u32,
    pub show_command_log: Option<bool>,
    pub show_file_tree: Option<bool>,
    pub diff_line_wrap: Option<bool>,
    pub show_commit_details: Option<bool>,
    pub color_theme: Option<String>,
}

impl Default for AppState {
    fn default() -> (s: AppState)
        ensures
            s.recent_repos@.len() == 0,
            s.startup_popup_version == 0,
            s.show_command_log is None,
            s.show_file_tree is None,
            s.diff_line_wrap is None,
            s.show_commit_details is None,
            s.color_theme is None,
    {
        AppState {
            recent_repos: Vec::new(),
            startup_popup_version: 0,
            show_command_log: None,
            show_file_tree: None,
            diff_line_wrap: None,
            show_commit_details: None,
            color_theme: None,
        }
    }
}

/// `v` without the occurrences of `x`, in order.
pub open spec fn without(v: Seq<Seq<char>>, x: Seq<char>) -> Seq<Seq<char>>
    decreases v.len(),
{
    if v.len() == 0 {
        seq![]
    } else if v.last() == x {
        without(v.drop_last(), x)
    } else {
        without(v.drop_last(), x).push(v.last())
    }
}

/// `v` with `x` moved (or added) to the front, the others after it in their order, at
/// most `cap` entries in all.
pub open spec fn moved_to_front(v: Seq<Seq<char>>, x: Seq<char>, cap: nat) -> Seq<Seq<char>> {
    let all = seq![x] + without(v, x);
    if all.len() > cap {
        all.take(cap as int)
    } else {
        all
    }
}

/// The recent list after opening `path`: `path` first, then the others in their order,
/// at most twenty in all.
pub open spec fn with_recent(v: Seq<Seq<char>>, path: Seq<char>) -> Seq<Seq<char>> {
    moved_to_front(v, path, MAX_RECENT_REPOS as nat)
}

/// Moves `x` to the front of `list` (adding it when absent), keeping at most `cap`
/// entries.
pub fn move_to_front(list: &mut Vec<String>, x: &str, cap: usize)
    ensures
        strs(final(list)@) == moved_to_front(strs(old(list)@), x@, cap as nat),
{
    let ghost old_v = strs(list@);
    let mut kept: Vec<String> = Vec::new();
    kept.push(owned(x));
    let mut i: usize = 0;
    proof {
        assert(old_v.take(0).len() == 0);
        assert(strs(kept@) =~= seq![x@] + without(old_v.take(0), x@));
    }
    while i < list.len()
        invariant
            i <= list@.len(),
            old_v == strs(list@),
            strs(kept@) == seq![x@] + without(old_v.take(i as int), x@),
            list@ == old(list)@,
        decreases list@.len() - i,
    {
        let r = &list[i];
        let same = crate::text::chars_eq(&crate::text::chars_of(r.as_str()), &crate::text::chars_of(x));
        proof {
            let t = old_v.take(i + 1);
            assert(t.drop_last() == old_v.take(i as int));
            assert(t.last() == r@);
        }
        if !same {
            let c = r.clone();
            proof {
                assert(strs(kept@.push(c)) =~= strs(kept@).push(c@));
            }
            kept.push(c);
        }
        i = i + 1;
    }
    proof {
        assert(old_v.take(old_v.len() as int) == old_v);
    }
    if kept.len() > cap {
        kept.truncate(cap);
        proof {
            assert(strs(kept@) =~= (seq![x@] + without(old_v, x@)).take(cap as int));
        }
    }
    *list = kept;
}

impl AppState {
    /// Records that `path` was opened: it moves to the front of the recent list (once),
    /// and the list keeps at most twenty entries.
    pub fn add_recent_repo(&mut self, path: &str)
        ensures
            strs(final(self).recent_repos@) == with_recent(strs(old(self).recent_repos@), path@),
            final(self).startup_popup_version == old(self).startup_popup_version,
            final(self).show_command_log == old(self).show_command_log,
            final(self).show_file_tree == old(self).show_file_tree,
            final(self).diff_line_wrap == old(self).diff_line_wrap,
            final(self).show_commit_details == old(self).show_commit_details,
            final(self).color_theme == old(self).color_theme,
    {
        move_to_front(&mut self.recent_repos, path, MAX_RECENT_REPOS);
    }
}


/// No entry of `v` occurs twice.
pub open spec fn distinct(v: Seq<Seq<char>>) -> bool {
    forall|i: int, j: int| 0 <= i < j < v.len() ==> v[i] != v[j]
}

proof fn lemma_without_subseq(v: Seq<Seq<char>>, x: Seq<char>)
    ensures
        !without(v, x).contains(x),
        forall|k: int| 0 <= k < without(v, x).len() ==> v.contains(#[trigger] without(v, x)[k]),
        without(v, x).len() <= v.len(),
    decreases v.len(),
{
    if v.len() > 0 {
        lemma_without_subseq(v.drop_last(), x);
        let w = without(v, x);
        let r = without(v.drop_last(), x);
        assert forall|k: int| 0 <= k < w.len() implies v.contains(#[trigger] w[k]) by {
            if k < r.len() {
                assert(w[k] == r[k]);
                let j = choose|j: int| 0 <= j < v.drop_last().len() && v.drop_last()[j] == r[k];
                assert(v[j] == r[k]);
            } else {
                assert(w[k] == v.last());
                assert(v[v.len() - 1] == v.last());
            }
        }
        if w.contains(x) {
            let k = choose|k: int| 0 <= k < w.len() && w[k] == x;
            if k < r.len() {
                assert(w[k] == r[k]);
            }
        }
    }
}

/// Dropping `x` from a sequence without `x` changes nothing.
proof fn lemma_without_absent(v: Seq<Seq<char>>, x: Seq<char>)
    requires
        !v.contains(x),
    ensures
        without(v, x) == v,
    decreases v.len(),
{
    if v.len() > 0 {
        assert(!v.drop_last().contains(x)) by {
            if v.drop_last().contains(x) {
                let k = choose|k: int| 0 <= k < v.drop_last().len() && v.drop_last()[k] == x;
                assert(v[k] == x);
            }
        }
        lemma_without_absent(v.drop_last(), x);
        assert(v[v.len() - 1] == v.last());
        assert(v.drop_last().push(v.last()) == v);
    }
}

/// Dropping `x` from `a + b` drops it from each.
proof fn lemma_without_concat(a: Seq<Seq<char>>, b: Seq<Seq<char>>, x: Seq<char>)
    ensures
        without(a + b, x) == without(a, x) + without(b, x),
    decreases b.len(),
{
    if b.len() == 0 {
        assert(a + b == a);
    } else {
        lemma_without_concat(a, b.drop_last(), x);
        assert((a + b).drop_last() == a + b.drop_last());
        assert((a + b).last() == b.last());
    }
}

/// After moving `path` to the front, the list starts with `path`, holds it once, and has
/// at most `cap` entries (twenty for the recent repositories, fifty for the commit
/// message history).
pub proof fn lemma_moved_to_front(v: Seq<Seq<char>>, path: Seq<char>, cap: nat)
    requires
        cap >= 1,
    ensures
        moved_to_front(v, path, cap).len() >= 1,
        moved_to_front(v, path, cap)[0] == path,
        forall|k: int| 1 <= k < moved_to_front(v, path, cap).len() ==> #[trigger] moved_to_front(v, path, cap)[k] != path,
        moved_to_front(v, path, cap).len() <= cap,
{
    lemma_without_subseq(v, path);
    let w = without(v, path);
    let all = seq![path] + w;
    let r = moved_to_front(v, path, cap);
    assert forall|k: int| 1 <= k < r.len() implies #[trigger] r[k] != path by {
        assert(r[k] == all[k]);
        assert(all[k] == w[k - 1]);
    }
}

/// Moving an entry to the front keeps a list free of duplicates.
pub proof fn lemma_moved_to_front_distinct(v: Seq<Seq<char>>, path: Seq<char>, cap: nat)
    requires
        distinct(v),
        cap >= 1,
    ensures
        distinct(moved_to_front(v, path, cap)),
{
    lemma_moved_to_front(v, path, cap);
    lemma_without_distinct(v, path);
    let w = without(v, path);
    let all = seq![path] + w;
    let r = moved_to_front(v, path, cap);
    assert forall|i: int, j: int| 0 <= i < j < r.len() implies r[i] != r[j] by {
        assert(r[i] == all[i]);
        assert(r[j] == all[j]);
        if i > 0 {
            assert(all[i] == w[i - 1]);
            assert(all[j] == w[j - 1]);
        }
    }
}

proof fn lemma_without_distinct(v: Seq<Seq<char>>, x: Seq<char>)
    requires
        distinct(v),
    ensures
        distinct(without(v, x)),
    decreases v.len(),
{
    if v.len() > 0 {
        let init = v.drop_last();
        assert(distinct(init)) by {
            assert forall|i: int, j: int| 0 <= i < j < init.len() implies init[i] != init[j] by {
                assert(init[i] == v[i]);
                assert(init[j] == v[j]);
            }
        }
        lemma_without_distinct(init, x);
        lemma_without_subseq(init, x);
        let r = without(init, x);
        let w = without(v, x);
        if v.last() != x {
            assert(!init.contains(v.last())) by {
                if init.contains(v.last()) {
                    let k = choose|k: int| 0 <= k < init.len() && init[k] == v.last();
                    assert(v[k] == v[v.len() - 1]);
                }
            }
            assert forall|i: int, j: int| 0 <= i < j < w.len() implies w[i] != w[j] by {
                if j == w.len() - 1 {
                    assert(w[j] == v.last());
                    assert(w[i] == r[i]);
                    assert(init.contains(r[i]));
                } else {
                    assert(w[i] == r[i]);
                    assert(w[j] == r[j]);
                }
            }
        }
    }
}

/// Moving the same entry to the front twice in a row leaves the list as moving it once
/// does (opening the same repository again, committing the same message again).
pub proof fn lemma_move_to_front_idempotent(v: Seq<Seq<char>>, path: Seq<char>, cap: nat)
    requires
        cap >= 1,
    ensures
        moved_to_front(moved_to_front(v, path, cap), path, cap) == moved_to_front(v, path, cap),
{
    let w = without(v, path);
    lemma_without_subseq(v, path);
    let r = moved_to_front(v, path, cap);
    lemma_moved_to_front(v, path, cap);
    let tail = r.drop_first();
    assert(r == seq![path] + tail);
    assert(!tail.contains(path)) by {
        if tail.contains(path) {
            let k = choose|k: int| 0 <= k < tail.len() && tail[k] == path;
            assert(r[k + 1] == path);
        }
    }
    lemma_without_concat(seq![path], tail, path);
    lemma_without_absent(tail, path);
    assert(without(seq![path], path) == without(seq![path].drop_last(), path));
    assert(seq![path].drop_last().len() == 0);
    assert(without(r, path) == tail);
    assert(seq![path] + tail == r);
}

} // verus!

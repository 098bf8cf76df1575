use vstd::prelude::*;

use crate::model::{strs, CommitFile, File};
use crate::text::{chars_eq, chars_of, comps, lemma_split_char_nonempty, split_at_char, split_char, string_of};

verus! {


// ---------------------------------------------------------------------------
// Ordering of paths
// ---------------------------------------------------------------------------

/// Lexicographic order of strings by character codes (std's order of `str`).
pub open spec fn str_lt(a: Seq<char>, b: Seq<char>) -> bool
    decreases a.len(),
{
    if a.len() == 0 {
        b.len() > 0
    } else if b.len() == 0 {
        false
    } else if a[0] != b[0] {
        (a[0] as int) < (b[0] as int)
    } else {
        str_lt(a.drop_first(), b.drop_first())
    }
}

/// Lexicographic order of lists of path components.
pub open spec fn parts_lt(a: Seq<Seq<char>>, b: Seq<Seq<char>>) -> bool
    decreases a.len(),
{
    if a.len() == 0 {
        b.len() > 0
    } else if b.len() == 0 {
        false
    } else if a[0] != b[0] {
        str_lt(a[0], b[0])
    } else {
        parts_lt(a.drop_first(), b.drop_first())
    }
}

proof fn lemma_str_lt_irrefl(a: Seq<char>)
    ensures
        !str_lt(a, a),
    decreases a.len(),
{
    if a.len() > 0 {
        lemma_str_lt_irrefl(a.drop_first());
    }
}

proof fn lemma_str_lt_trans(a: Seq<char>, b: Seq<char>, c: Seq<char>)
    requires
        str_lt(a, b),
        str_lt(b, c),
    ensures
        str_lt(a, c),
    decreases a.len(),
{
    if a.len() > 0 && b.len() > 0 && c.len() > 0 && a[0] == b[0] && b[0] == c[0] {
        lemma_str_lt_trans(a.drop_first(), b.drop_first(), c.drop_first());
    }
}

proof fn lemma_str_lt_total(a: Seq<char>, b: Seq<char>)
    ensures
        a == b || str_lt(a, b) || str_lt(b, a),
    decreases a.len(),
{
    if a.len() > 0 && b.len() > 0 && a[0] == b[0] {
        lemma_str_lt_total(a.drop_first(), b.drop_first());
        if a.drop_first() == b.drop_first() {
            assert(a == seq![a[0]] + a.drop_first());
            assert(b == seq![b[0]] + b.drop_first());
        }
    } else if a.len() == 0 && b.len() == 0 {
        assert(a == b);
    } else if a.len() > 0 && b.len() > 0 {
        assert((a[0] as int) != (b[0] as int));
    }
}

proof fn lemma_str_lt_asym(a: Seq<char>, b: Seq<char>)
    requires
        str_lt(a, b),
    ensures
        !str_lt(b, a),
{
    if str_lt(b, a) {
        lemma_str_lt_trans(a, b, a);
        lemma_str_lt_irrefl(a);
    }
}

proof fn lemma_parts_lt_irrefl(a: Seq<Seq<char>>)
    ensures
        !parts_lt(a, a),
    decreases a.len(),
{
    if a.len() > 0 {
        lemma_parts_lt_irrefl(a.drop_first());
    }
}

proof fn lemma_parts_lt_trans(a: Seq<Seq<char>>, b: Seq<Seq<char>>, c: Seq<Seq<char>>)
    requires
        parts_lt(a, b),
        parts_lt(b, c),
    ensures
        parts_lt(a, c),
    decreases a.len(),
{
    if a.len() > 0 && b.len() > 0 && c.len() > 0 {
        if a[0] == b[0] && b[0] == c[0] {
            lemma_parts_lt_trans(a.drop_first(), b.drop_first(), c.drop_first());
        } else if a[0] == b[0] {
        } else if b[0] == c[0] {
        } else {
            lemma_str_lt_trans(a[0], b[0], c[0]);
            if a[0] == c[0] {
                lemma_str_lt_asym(a[0], b[0]);
            }
        }
    }
}

proof fn lemma_parts_lt_total(a: Seq<Seq<char>>, b: Seq<Seq<char>>)
    ensures
        a == b || parts_lt(a, b) || parts_lt(b, a),
    decreases a.len(),
{
    if a.len() > 0 && b.len() > 0 {
        if a[0] == b[0] {
            lemma_parts_lt_total(a.drop_first(), b.drop_first());
            if a.drop_first() == b.drop_first() {
                assert(a == seq![a[0]] + a.drop_first());
                assert(b == seq![b[0]] + b.drop_first());
            }
        } else {
            lemma_str_lt_total(a[0], b[0]);
        }
    } else if a.len() == 0 && b.len() == 0 {
        assert(a == b);
    }
}

/// Whether `a` comes before `b`.
fn str_less(a: &[char], b: &[char]) -> (r: bool)
    ensures
        r == str_lt(a@, b@),
{
    let mut i: usize = 0;
    proof {
        assert(a@.skip(0) == a@);
        assert(b@.skip(0) == b@);
    }
    while i < a.len() && i < b.len() && a[i] == b[i]
        invariant
            i <= a.len(),
            i <= b.len(),
            str_lt(a@, b@) == str_lt(a@.skip(i as int), b@.skip(i as int)),
        decreases a.len() - i,
    {
        proof {
            assert(a@.skip(i as int).drop_first() == a@.skip(i + 1));
            assert(b@.skip(i as int).drop_first() == b@.skip(i + 1));
        }
        i = i + 1;
    }
    if i == a.len() {
        i < b.len()
    } else if i == b.len() {
        false
    } else {
        proof {
            assert(a@.skip(i as int)[0] == a@[i as int]);
            assert(b@.skip(i as int)[0] == b@[i as int]);
        }
        a[i] < b[i]
    }
}


/// Whether the component list `a` comes before `b`.
fn parts_less(a: &Vec<Vec<char>>, b: &Vec<Vec<char>>) -> (r: bool)
    ensures
        r == parts_lt(comps(a@), comps(b@)),
{
    let ghost av = comps(a@);
    let ghost bv = comps(b@);
    let mut i: usize = 0;
    proof {
        assert(av.skip(0) == av);
        assert(bv.skip(0) == bv);
    }
    while i < a.len() && i < b.len() && chars_eq(&a[i], &b[i])
        invariant
            i <= a.len(),
            i <= b.len(),
            av == comps(a@),
            bv == comps(b@),
            parts_lt(av, bv) == parts_lt(av.skip(i as int), bv.skip(i as int)),
        decreases a.len() - i,
    {
        proof {
            assert(av.skip(i as int).drop_first() == av.skip(i + 1));
            assert(bv.skip(i as int).drop_first() == bv.skip(i + 1));
            assert(av.skip(i as int)[0] == av[i as int]);
        }
        i = i + 1;
    }
    if i == a.len() {
        i < b.len()
    } else if i == b.len() {
        false
    } else {
        proof {
            assert(av.skip(i as int)[0] == a@[i as int]@);
            assert(bv.skip(i as int)[0] == b@[i as int]@);
        }
        str_less(&a[i], &b[i])
    }
}

// ---------------------------------------------------------------------------
// Sorting the entries
// ---------------------------------------------------------------------------

/// The components of a path.
pub open spec fn path_parts(name: Seq<char>) -> Seq<Seq<char>> {
    split_char(name, '/')
}

/// Entry `i` comes before entry `j`: by path components, then by position (a stable
/// sort).
pub open spec fn entry_lt(ps: Seq<Seq<Seq<char>>>, i: int, j: int) -> bool {
    parts_lt(ps[i], ps[j]) || (ps[i] == ps[j] && i < j)
}

/// `i` occurs in `order`.
pub open spec fn occurs_in(order: Seq<usize>, i: int) -> bool {
    exists|k: int| 0 <= k < order.len() && #[trigger] order[k] == i
}

/// `order` lists every entry once, sorted.
pub open spec fn is_sorted_order(ps: Seq<Seq<Seq<char>>>, order: Seq<usize>) -> bool {
    &&& order.len() == ps.len()
    &&& forall|k: int| 0 <= k < order.len() ==> #[trigger] order[k] < ps.len()
    &&& forall|a: int, b: int| 0 <= a < b < order.len() ==> entry_lt(ps, #[trigger] order[a] as int, #[trigger] order[b] as int)
    &&& forall|i: int| 0 <= i < ps.len() ==> #[trigger] occurs_in(order, i)
}

proof fn lemma_entry_lt_trans(ps: Seq<Seq<Seq<char>>>, i: int, j: int, k: int)
    requires
        entry_lt(ps, i, j),
        entry_lt(ps, j, k),
    ensures
        entry_lt(ps, i, k),
{
    if parts_lt(ps[i], ps[j]) && parts_lt(ps[j], ps[k]) {
        lemma_parts_lt_trans(ps[i], ps[j], ps[k]);
    }
}

proof fn lemma_entry_lt_irrefl(ps: Seq<Seq<Seq<char>>>, i: int)
    ensures
        !entry_lt(ps, i, i),
{
    lemma_parts_lt_irrefl(ps[i]);
}

proof fn lemma_entry_lt_total(ps: Seq<Seq<Seq<char>>>, i: int, j: int)
    requires
        i != j,
    ensures
        entry_lt(ps, i, j) || entry_lt(ps, j, i),
{
    lemma_parts_lt_total(ps[i], ps[j]);
}

/// The entries sorted by path, equal paths keeping their order.
fn sort_entries(parts: &Vec<Vec<Vec<char>>>) -> (order: Vec<usize>)
    ensures
        is_sorted_order(parts@.map_values(|v: Vec<Vec<char>>| comps(v@)), order@),
{
    let ghost ps = parts@.map_values(|v: Vec<Vec<char>>| comps(v@));
    let mut order: Vec<usize> = Vec::new();
    let mut n: usize = 0;
    while n < parts.len()
        invariant
            n <= parts.len(),
            ps == parts@.map_values(|v: Vec<Vec<char>>| comps(v@)),
            order@.len() == n,
            forall|k: int| 0 <= k < n ==> 0 <= #[trigger] order@[k] < n,
            forall|a: int, b: int| 0 <= a < b < n ==> entry_lt(ps, #[trigger] order@[a] as int, #[trigger] order@[b] as int),
            forall|i: int| 0 <= i < n ==> #[trigger] occurs_in(order@, i),
        decreases parts.len() - n,
    {
        // Find where entry n goes: after every entry before it.
        let mut pos: usize = order.len();
        while pos > 0 && parts_less(&parts[n], &parts[order[pos - 1]])
            invariant
                pos <= order@.len(),
                order@.len() == n,
                n < parts@.len(),
                ps == parts@.map_values(|v: Vec<Vec<char>>| comps(v@)),
                forall|k: int| 0 <= k < n ==> 0 <= #[trigger] order@[k] < n,
                forall|k: int| pos <= k < n ==> entry_lt(ps, n as int, #[trigger] order@[k] as int),
            decreases pos,
        {
            proof {
                assert(ps[n as int] == comps(parts@[n as int]@));
                assert(ps[order@[pos - 1] as int] == comps(parts@[order@[pos - 1] as int]@));
            }
            pos = pos - 1;
        }
        proof {
            if pos > 0 {
                let q = order@[pos - 1] as int;
                assert(ps[n as int] == comps(parts@[n as int]@));
                assert(ps[q] == comps(parts@[q]@));
                assert(!parts_lt(ps[n as int], ps[q]));
                lemma_parts_lt_total(ps[n as int], ps[q]);
                assert(entry_lt(ps, q, n as int));
            }
        }
        let ghost before = order@;
        order.insert(pos, n);
        proof {
            assert forall|k: int| 0 <= k < n + 1 implies 0 <= #[trigger] order@[k] < n + 1 by {
                if k < pos {
                    assert(order@[k] == before[k]);
                } else if k > pos {
                    assert(order@[k] == before[k - 1]);
                }
            }
            assert forall|a: int, b: int| 0 <= a < b < n + 1 implies entry_lt(ps, #[trigger] order@[a] as int, #[trigger] order@[b] as int) by {
                if b < pos {
                    assert(order@[a] == before[a]);
                    assert(order@[b] == before[b]);
                } else if b == pos {
                    assert(order@[a] == before[a]);
                    if a < pos - 1 {
                        assert(entry_lt(ps, before[a] as int, before[pos - 1] as int));
                        lemma_entry_lt_trans(ps, before[a] as int, before[pos - 1] as int, n as int);
                    }
                } else if a == pos {
                    assert(order@[b] == before[b - 1]);
                } else if a > pos {
                    assert(order@[a] == before[a - 1]);
                    assert(order@[b] == before[b - 1]);
                } else {
                    assert(order@[a] == before[a]);
                    assert(order@[b] == before[b - 1]);
                    if a < pos - 1 {
                        assert(entry_lt(ps, before[a] as int, before[pos - 1] as int));
                        lemma_entry_lt_trans(ps, before[a] as int, before[pos - 1] as int, n as int);
                    }
                    lemma_entry_lt_trans(ps, before[a] as int, n as int, before[b - 1] as int);
                }
            }
            assert forall|i: int| 0 <= i < n + 1 implies #[trigger] occurs_in(order@, i) by {
                if i == n {
                    assert(order@[pos as int] == i);
                } else {
                    assert(occurs_in(before, i));
                    let k = choose|k: int| 0 <= k < before.len() && #[trigger] before[k] == i;
                    if k < pos {
                        assert(order@[k] == i);
                    } else {
                        assert(order@[k + 1] == i);
                    }
                }
            }
        }
        n = n + 1;
    }
    order
}

// ---------------------------------------------------------------------------
// The tree
// ---------------------------------------------------------------------------

/// What a tree node shows: its depth, name and path, the file it stands for (files
/// only) and, for directories, the files below it.
pub struct TreeNodeView {
    pub depth: int,
    pub name: Seq<char>,
    pub path: Seq<char>,
    pub file_index: Option<usize>,
    pub is_dir: bool,
    pub children: Seq<usize>,
}

/// Components joined with `/`.
pub open spec fn join_path(c: Seq<Seq<char>>) -> Seq<char> {
    crate::text::join_with(c, seq!['/'])
}

/// The directory made of the first `d + 1` components of `parts` is collapsed.
pub open spec fn dir_collapsed(collapsed: Seq<Seq<char>>, parts: Seq<Seq<char>>, d: int) -> bool {
    collapsed.contains(join_path(parts.take(d + 1)))
}

/// One of the first `d` directories on the way to `parts` is collapsed.
pub open spec fn under_collapsed(collapsed: Seq<Seq<char>>, parts: Seq<Seq<char>>, d: int) -> bool {
    exists|j: int| 0 <= j < d && #[trigger] dir_collapsed(collapsed, parts, j)
}

/// The number of leading components that `a` and `b` share.
pub open spec fn common_len(a: Seq<Seq<char>>, b: Seq<Seq<char>>) -> nat
    decreases a.len(),
{
    if a.len() == 0 || b.len() == 0 || a[0] != b[0] {
        0
    } else {
        1 + common_len(a.drop_first(), b.drop_first())
    }
}

/// The entries of `order` (file indices) whose path lies below the directory
/// `prefix`, in order.
pub open spec fn files_under(ps: Seq<Seq<Seq<char>>>, order: Seq<usize>, prefix: Seq<Seq<char>>) -> Seq<usize>
    decreases order.len(),
{
    if order.len() == 0 {
        Seq::empty()
    } else {
        let rest = files_under(ps, order.drop_last(), prefix);
        let i = order.last() as int;
        if ps[i].len() > prefix.len() && ps[i].take(prefix.len() as int) == prefix {
            rest.push(order.last())
        } else {
            rest
        }
    }
}


/// Whether `path` is one of `collapsed`.
fn is_listed(collapsed: &Vec<Vec<char>>, path: &Vec<char>) -> (b: bool)
    ensures
        b == comps(collapsed@).contains(path@),
{
    let ghost cv = comps(collapsed@);
    let mut i: usize = 0;
    while i < collapsed.len()
        invariant
            i <= collapsed.len(),
            cv == comps(collapsed@),
            forall|k: int| 0 <= k < i ==> cv[k] != path@,
        decreases collapsed.len() - i,
    {
        if chars_eq(&collapsed[i], path) {
            proof {
                assert(cv[i as int] == path@);
            }
            return true;
        }
        i = i + 1;
    }
    false
}

/// The number of leading components shared by the first `alen` components of `a`
/// and the first `blen` of `b`.
fn common_prefix_len(a: &Vec<Vec<char>>, alen: usize, b: &Vec<Vec<char>>, blen: usize) -> (r: usize)
    requires
        alen <= a.len(),
        blen <= b.len(),
    ensures
        r == common_len(comps(a@).take(alen as int), comps(b@).take(blen as int)),
        r <= alen,
        r <= blen,
{
    let ghost av = comps(a@).take(alen as int);
    let ghost bv = comps(b@).take(blen as int);
    let mut i: usize = 0;
    proof {
        assert(av.skip(0) == av);
        assert(bv.skip(0) == bv);
    }
    while i < alen && i < blen && chars_eq(&a[i], &b[i])
        invariant
            i <= alen <= a.len(),
            i <= blen <= b.len(),
            av == comps(a@).take(alen as int),
            bv == comps(b@).take(blen as int),
            common_len(av, bv) == i + common_len(av.skip(i as int), bv.skip(i as int)),
        decreases alen - i,
    {
        proof {
            assert(av.skip(i as int)[0] == av[i as int]);
            assert(bv.skip(i as int)[0] == bv[i as int]);
            assert(av.skip(i as int).drop_first() == av.skip(i + 1));
            assert(bv.skip(i as int).drop_first() == bv.skip(i + 1));
        }
        i = i + 1;
    }
    proof {
        if i < alen && i < blen {
            assert(av.skip(i as int)[0] == av[i as int]);
            assert(bv.skip(i as int)[0] == bv[i as int]);
        }
    }
    i
}

/// Whether the path `q` lies below the directory made of the first `len`
/// components of `p`.
fn is_below(q: &Vec<Vec<char>>, p: &Vec<Vec<char>>, len: usize) -> (b: bool)
    requires
        len <= p.len(),
    ensures
        b == (comps(q@).len() > len && comps(q@).take(len as int) == comps(p@).take(len as int)),
{
    if q.len() <= len {
        return false;
    }
    let ghost qv = comps(q@);
    let ghost pv = comps(p@);
    let mut j: usize = 0;
    while j < len
        invariant
            j <= len <= p.len(),
            len < q.len(),
            qv == comps(q@),
            pv == comps(p@),
            qv.take(j as int) == pv.take(j as int),
        decreases len - j,
    {
        if !chars_eq(&q[j], &p[j]) {
            proof {
                assert(qv.take(len as int)[j as int] == qv[j as int]);
                assert(pv.take(len as int)[j as int] == pv[j as int]);
            }
            return false;
        }
        proof {
            assert(qv.take(j + 1) == qv.take(j as int).push(qv[j as int]));
            assert(pv.take(j + 1) == pv.take(j as int).push(pv[j as int]));
        }
        j = j + 1;
    }
    true
}

/// The files of `order` below the directory made of the first `len` components of
/// `p`.
fn collect_under(parts: &Vec<Vec<Vec<char>>>, order: &Vec<usize>, p: &Vec<Vec<char>>, len: usize) -> (out: Vec<usize>)
    requires
        len <= p.len(),
        forall|k: int| 0 <= k < order.len() ==> #[trigger] order@[k] < parts.len(),
    ensures
        out@ == files_under(parts@.map_values(|v: Vec<Vec<char>>| comps(v@)), order@, comps(p@).take(len as int)),
{
    let ghost ps = parts@.map_values(|v: Vec<Vec<char>>| comps(v@));
    let ghost prefix = comps(p@).take(len as int);
    let mut out: Vec<usize> = Vec::new();
    let mut t: usize = 0;
    proof {
        assert(order@.take(0).len() == 0);
    }
    while t < order.len()
        invariant
            t <= order.len(),
            ps == parts@.map_values(|v: Vec<Vec<char>>| comps(v@)),
            prefix == comps(p@).take(len as int),
            len <= p.len(),
            forall|k: int| 0 <= k < order.len() ==> #[trigger] order@[k] < parts.len(),
            out@ == files_under(ps, order@.take(t as int), prefix),
        decreases order.len() - t,
    {
        let i = order[t];
        let below = is_below(&parts[i], p, len);
        proof {
            let o = order@.take(t + 1);
            assert(o.drop_last() == order@.take(t as int));
            assert(o.last() == i);
            assert(ps[i as int] == comps(parts@[i as int]@));
        }
        if below {
            out.push(i);
        }
        t = t + 1;
    }
    proof {
        assert(order@.take(order@.len() as int) == order@);
    }
    out
}


/// The views of a list of nodes.
pub open spec fn node_views(v: Seq<FileTreeNode>) -> Seq<TreeNodeView> {
    v.map_values(|n: FileTreeNode| n@)
}

proof fn lemma_node_views_push(v: Seq<FileTreeNode>, x: FileTreeNode)
    ensures
        node_views(v.push(x)) == node_views(v).push(x@),
{
    assert(node_views(v.push(x)) =~= node_views(v).push(x@));
}

/// A node of the flattened file tree.
#[derive(Debug, Clone)]
pub struct FileTreeNode {
    /// Indentation depth (0 for the root).
    pub depth: usize,
    /// The directory or file name alone.
    pub name: String,
    /// The full path (`.` for the root).
    pub path: String,
    /// For a file, its index in the file list.
    pub file_index: Option<usize>,
    pub is_dir: bool,
    /// For a directory, the indices of all files below it.
    pub child_file_indices: Vec<usize>,
}

/// The file of the files panel that selection `selected` stands for: in the tree view,
/// the file of the selected node (none for a directory or past the nodes); in the flat
/// list, the selected entry itself.
pub fn selected_file_index(show_file_tree: bool, nodes: &Vec<FileTreeNode>, selected: usize) -> (r: Option<usize>)
    ensures
        !show_file_tree ==> r == Some(selected),
        show_file_tree && selected < nodes@.len() ==> r == nodes@[selected as int].file_index,
        show_file_tree && selected >= nodes@.len() ==> r is None,
{
    if show_file_tree {
        if selected < nodes.len() {
            nodes[selected].file_index
        } else {
            None
        }
    } else {
        Some(selected)
    }
}

impl View for FileTreeNode {
    type V = TreeNodeView;

    open spec fn view(&self) -> TreeNodeView {
        TreeNodeView {
            depth: self.depth as int,
            name: self.name@,
            path: self.path@,
            file_index: self.file_index,
            is_dir: self.is_dir,
            children: self.child_file_indices@,
        }
    }
}

/// The node of the directory made of the first `d + 1` components of `parts`.
pub open spec fn dir_node_view(ps: Seq<Seq<Seq<char>>>, order: Seq<usize>, parts: Seq<Seq<char>>, d: int) -> TreeNodeView {
    TreeNodeView {
        depth: d + 1,
        name: parts[d],
        path: join_path(parts.take(d + 1)),
        file_index: None,
        is_dir: true,
        children: files_under(ps, order, parts.take(d + 1)),
    }
}

/// The nodes of the directories `lo..hi` on the way to `parts` that no collapsed
/// directory above them hides.
pub open spec fn dir_nodes(
    ps: Seq<Seq<Seq<char>>>,
    order: Seq<usize>,
    collapsed: Seq<Seq<char>>,
    parts: Seq<Seq<char>>,
    lo: int,
    hi: int,
) -> Seq<TreeNodeView>
    decreases hi - lo,
{
    if hi <= lo {
        Seq::empty()
    } else {
        let rest = dir_nodes(ps, order, collapsed, parts, lo, hi - 1);
        if under_collapsed(collapsed, parts, hi - 1) {
            rest
        } else {
            rest.push(dir_node_view(ps, order, parts, hi - 1))
        }
    }
}

/// The node of file `i`, whose path has the components `parts`.
pub open spec fn file_node_view(parts: Seq<Seq<char>>, i: usize) -> TreeNodeView {
    TreeNodeView {
        depth: parts.len() as int,
        name: parts.last(),
        path: join_path(parts),
        file_index: Some(i),
        is_dir: false,
        children: Seq::empty(),
    }
}

/// The directories of the entry before the `k`-th in sorted order (none for the first).
pub open spec fn prev_dirs(ps: Seq<Seq<Seq<char>>>, order: Seq<usize>, k: int) -> Seq<Seq<char>> {
    if k == 0 {
        Seq::empty()
    } else {
        ps[order[k - 1] as int].drop_last()
    }
}

/// The nodes that the `k`-th entry in sorted order adds: the directories that the
/// entry before it did not open, unless a collapsed directory hides them, then the
/// file itself, unless a collapsed directory hides it.
pub open spec fn entry_nodes(ps: Seq<Seq<Seq<char>>>, order: Seq<usize>, collapsed: Seq<Seq<char>>, k: int) -> Seq<TreeNodeView> {
    let i = order[k];
    let parts = ps[i as int];
    let m = parts.len() - 1;
    let cp = common_len(prev_dirs(ps, order, k), parts.drop_last()) as int;
    let dirs = dir_nodes(ps, order, collapsed, parts, cp, m);
    if under_collapsed(collapsed, parts, m) {
        dirs
    } else {
        dirs.push(file_node_view(parts, i))
    }
}

/// The nodes of the first `k` entries in sorted order.
pub open spec fn entries_nodes(ps: Seq<Seq<Seq<char>>>, order: Seq<usize>, collapsed: Seq<Seq<char>>, k: int) -> Seq<TreeNodeView>
    decreases k,
{
    if k <= 0 {
        Seq::empty()
    } else {
        entries_nodes(ps, order, collapsed, k - 1) + entry_nodes(ps, order, collapsed, k - 1)
    }
}

/// The root node `.`, which holds all `n` files.
pub open spec fn root_view(n: nat) -> TreeNodeView {
    TreeNodeView {
        depth: 0,
        name: seq!['.'],
        path: seq!['.'],
        file_index: None,
        is_dir: true,
        children: Seq::new(n, |i: int| i as usize),
    }
}

/// The tree of the paths `ps` (as component lists) listed in sorted `order`: nothing
/// for no files; the root alone when `.` is collapsed; else the root, then the nodes
/// of each entry in sorted order.
pub open spec fn tree_view(ps: Seq<Seq<Seq<char>>>, order: Seq<usize>, collapsed: Seq<Seq<char>>) -> Seq<TreeNodeView> {
    if ps.len() == 0 {
        Seq::empty()
    } else if collapsed.contains(seq!['.']) {
        seq![root_view(ps.len())]
    } else {
        seq![root_view(ps.len())] + entries_nodes(ps, order, collapsed, ps.len() as int)
    }
}

/// The component lists of `names`.
pub open spec fn name_parts(names: Seq<Seq<char>>) -> Seq<Seq<Seq<char>>> {
    names.map_values(|n: Seq<char>| path_parts(n))
}

/// `nodes` is the tree of the file paths `names` with the directories `collapsed`
/// collapsed, the paths taken in sorted order.
pub open spec fn is_file_tree(names: Seq<Seq<char>>, collapsed: Seq<Seq<char>>, nodes: Seq<TreeNodeView>) -> bool {
    exists|order: Seq<usize>|
        is_sorted_order(name_parts(names), order) && nodes == tree_view(name_parts(names), order, collapsed)
}

/// Every path has at least one component.
pub open spec fn all_nonempty(ps: Seq<Seq<Seq<char>>>) -> bool {
    forall|i: int| 0 <= i < ps.len() ==> #[trigger] ps[i].len() >= 1
}

/// Extends the path of directory `d - 1` on the way to `p` to the path of entry `d`.
fn extend_path(path: &mut Vec<char>, p: &Vec<Vec<char>>, d: usize)
    requires
        d < p.len(),
        d == 0 ==> old(path)@.len() == 0,
        d > 0 ==> old(path)@ == join_path(comps(p@).take(d as int)),
    ensures
        final(path)@ == join_path(comps(p@).take(d + 1)),
{
    let ghost pv = comps(p@);
    if d == 0 {
        crate::text::push_all(path, &p[0]);
        proof {
            assert(pv.take(1).len() == 1);
            assert(pv.take(1)[0] == p@[0]@);
        }
    } else {
        path.push('/');
        crate::text::push_all(path, &p[d]);
        proof {
            let t = pv.take(d + 1);
            assert(t.drop_last() == pv.take(d as int));
            assert(t.last() == p@[d as int]@);
        }
    }
}

/// The node of directory `d` on the way to `p`, whose path is `path`.
fn make_dir_node(parts: &Vec<Vec<Vec<char>>>, order: &Vec<usize>, p: &Vec<Vec<char>>, path: &Vec<char>, d: usize) -> (node: FileTreeNode)
    requires
        d < p.len(),
        path@ == join_path(comps(p@).take(d + 1)),
        forall|k: int| 0 <= k < order.len() ==> #[trigger] order@[k] < parts.len(),
    ensures
        node@ == dir_node_view(parts@.map_values(|v: Vec<Vec<char>>| comps(v@)), order@, comps(p@), d as int),
{
    let children = collect_under(parts, order, p, d + 1);
    let node = FileTreeNode {
        depth: d + 1,
        name: string_of(&p[d]),
        path: string_of(path),
        file_index: None,
        is_dir: true,
        child_file_indices: children,
    };
    proof {
        assert(comps(p@)[d as int] == p@[d as int]@);
    }
    node
}

/// Appends the nodes of the `k`-th entry in sorted order.
fn push_entry_nodes(
    nodes: &mut Vec<FileTreeNode>,
    parts: &Vec<Vec<Vec<char>>>,
    order: &Vec<usize>,
    collapsed: &Vec<Vec<char>>,
    k: usize,
)
    requires
        is_sorted_order(parts@.map_values(|v: Vec<Vec<char>>| comps(v@)), order@),
        all_nonempty(parts@.map_values(|v: Vec<Vec<char>>| comps(v@))),
        k < order.len(),
    ensures
        node_views(final(nodes)@) == node_views(old(nodes)@) + entry_nodes(
            parts@.map_values(|v: Vec<Vec<char>>| comps(v@)),
            order@,
            comps(collapsed@),
            k as int,
        ),
{
    let ghost ps = parts@.map_values(|v: Vec<Vec<char>>| comps(v@));
    let ghost cv = comps(collapsed@);
    let ghost base = node_views(nodes@);
    let i = order[k];
    let p = &parts[i];
    let ghost pv = comps(p@);
    proof {
        assert(ps[i as int] == pv);
        assert(ps[i as int].len() >= 1);
    }
    let m = p.len() - 1;
    let cp = if k == 0 {
        0
    } else {
        let q = &parts[order[k - 1]];
        proof {
            assert(ps[order@[k - 1] as int] == comps(q@));
            assert(ps[order@[k - 1] as int].len() >= 1);
            assert(comps(q@).drop_last() == comps(q@).take(q@.len() - 1));
        }
        common_prefix_len(q, q.len() - 1, p, m)
    };
    proof {
        assert(pv.drop_last() == pv.take(m as int));
        if k == 0 {
            assert(prev_dirs(ps, order@, k as int).len() == 0);
        }
        assert(cp == common_len(prev_dirs(ps, order@, k as int), pv.drop_last()));
    }
    let mut path: Vec<char> = Vec::new();
    let mut hidden = false;
    proof {
        assert(path@.len() == 0);
    }
    let mut d: usize = 0;
    while d < m
        invariant
            d <= m,
            m + 1 == p.len(),
            p == &parts@[i as int],
            i < parts.len(),
            pv == comps(p@),
            ps == parts@.map_values(|v: Vec<Vec<char>>| comps(v@)),
            cv == comps(collapsed@),
            is_sorted_order(ps, order@),
            hidden == under_collapsed(cv, pv, d as int),
            d > 0 ==> path@ == join_path(pv.take(d as int)),
            d == 0 ==> path@.len() == 0,
            node_views(nodes@) == base + dir_nodes(ps, order@, cv, pv, cp as int, d as int),
        decreases m - d,
    {
        extend_path(&mut path, p, d);
        if d >= cp && !hidden {
            let node = make_dir_node(parts, order, p, &path, d);
            proof {
                lemma_node_views_push(nodes@, node);
            }
            nodes.push(node);
        }
        let c = is_listed(collapsed, &path);
        proof {
            assert(c == dir_collapsed(cv, pv, d as int));
            if c {
                assert(under_collapsed(cv, pv, d + 1));
            } else if hidden {
                let j = choose|j: int| 0 <= j < d && #[trigger] dir_collapsed(cv, pv, j);
                assert(under_collapsed(cv, pv, d + 1));
            } else {
                assert forall|j: int| 0 <= j < d + 1 implies !#[trigger] dir_collapsed(cv, pv, j) by {
                    if j < d {
                        assert(!under_collapsed(cv, pv, d as int));
                    }
                }
            }
        }
        hidden = hidden || c;
        d = d + 1;
    }
    if !hidden {
        if m == 0 {
            path = Vec::new();
        }
        extend_path(&mut path, p, m);
        proof {
            assert(pv.take(m + 1) == pv);
        }
        let node = FileTreeNode {
            depth: m + 1,
            name: string_of(&p[m]),
            path: string_of(&path),
            file_index: Some(i),
            is_dir: false,
            child_file_indices: Vec::new(),
        };
        proof {
            lemma_node_views_push(nodes@, node);
            assert(node@.children == Seq::<usize>::empty());
            assert(pv[m as int] == p@[m as int]@);
            assert(node@.name == pv.last());
            assert(node@.path == join_path(pv));
            assert(node@ == file_node_view(pv, i));
        }
        nodes.push(node);
    }
}


/// The component lists of `names`, one per name.
fn split_names(names: &Vec<Vec<char>>) -> (parts: Vec<Vec<Vec<char>>>)
    ensures
        parts@.map_values(|v: Vec<Vec<char>>| comps(v@)) == name_parts(comps(names@)),
        all_nonempty(name_parts(comps(names@))),
{
    let ghost nv = comps(names@);
    let mut parts: Vec<Vec<Vec<char>>> = Vec::new();
    let mut i: usize = 0;
    while i < names.len()
        invariant
            i <= names.len(),
            nv == comps(names@),
            parts@.len() == i,
            forall|j: int| 0 <= j < i ==> comps(#[trigger] parts@[j]@) == path_parts(nv[j]),
        decreases names.len() - i,
    {
        let sp = split_at_char(&names[i], '/');
        proof {
            assert(comps(sp@) == sp@.map_values(|v: Vec<char>| v@));
            assert(nv[i as int] == names@[i as int]@);
        }
        parts.push(sp);
        i = i + 1;
    }
    proof {
        assert(parts@.map_values(|v: Vec<Vec<char>>| comps(v@)) =~= name_parts(nv));
        assert forall|j: int| 0 <= j < nv.len() implies #[trigger] name_parts(nv)[j].len() >= 1 by {
            lemma_split_char_nonempty(nv[j], '/');
        }
    }
    parts
}

/// The indices `0..n`.
fn all_indices(n: usize) -> (out: Vec<usize>)
    ensures
        out@ == Seq::new(n as nat, |i: int| i as usize),
{
    let mut out: Vec<usize> = Vec::new();
    let mut i: usize = 0;
    while i < n
        invariant
            i <= n,
            out@ == Seq::new(i as nat, |j: int| j as usize),
        decreases n - i,
    {
        out.push(i);
        i = i + 1;
        proof {
            assert(out@ =~= Seq::new(i as nat, |j: int| j as usize));
        }
    }
    out
}

/// The tree of the paths `names`, with the directories `collapsed` collapsed.
fn build_tree(names: &Vec<Vec<char>>, collapsed: &Vec<Vec<char>>) -> (nodes: Vec<FileTreeNode>)
    ensures
        is_file_tree(comps(names@), comps(collapsed@), node_views(nodes@)),
{
    let ghost nv = comps(names@);
    let ghost cv = comps(collapsed@);
    let n = names.len();
    let parts = split_names(names);
    let ghost ps = parts@.map_values(|v: Vec<Vec<char>>| comps(v@));
    let order = sort_entries(&parts);
    if n == 0 {
        let nodes: Vec<FileTreeNode> = Vec::new();
        proof {
            assert(node_views(nodes@) =~= tree_view(name_parts(nv), order@, cv));
        }
        return nodes;
    }
    let dot: Vec<char> = vec!['.'];
    proof {
        assert(dot@ == seq!['.']);
    }
    let root = FileTreeNode {
        depth: 0,
        name: string_of(&dot),
        path: string_of(&dot),
        file_index: None,
        is_dir: true,
        child_file_indices: all_indices(n),
    };
    let mut nodes: Vec<FileTreeNode> = Vec::new();
    proof {
        lemma_node_views_push(nodes@, root);
        assert(root@ == root_view(n as nat));
    }
    nodes.push(root);
    if is_listed(collapsed, &dot) {
        proof {
            assert(dot@ == seq!['.']);
            assert(node_views(nodes@) =~= tree_view(name_parts(nv), order@, cv));
        }
        return nodes;
    }
    proof {
        assert(dot@ == seq!['.']);
        assert(node_views(nodes@) =~= seq![root_view(n as nat)] + entries_nodes(ps, order@, cv, 0));
    }
    let mut k: usize = 0;
    while k < n
        invariant
            k <= n == parts.len(),
            ps == parts@.map_values(|v: Vec<Vec<char>>| comps(v@)),
            ps == name_parts(nv),
            cv == comps(collapsed@),
            all_nonempty(ps),
            is_sorted_order(ps, order@),
            node_views(nodes@) == seq![root_view(n as nat)] + entries_nodes(ps, order@, cv, k as int),
        decreases n - k,
    {
        push_entry_nodes(&mut nodes, &parts, &order, collapsed, k);
        proof {
            assert(entries_nodes(ps, order@, cv, k + 1) == entries_nodes(ps, order@, cv, k as int) + entry_nodes(ps, order@, cv, k as int));
        }
        k = k + 1;
    }
    proof {
        assert(!cv.contains(seq!['.']));
        assert(node_views(nodes@) == tree_view(ps, order@, cv));
    }
    nodes
}


/// The characters of each string.
fn char_lists(v: &[String]) -> (out: Vec<Vec<char>>)
    ensures
        comps(out@) == strs(v@),
{
    let mut out: Vec<Vec<char>> = Vec::new();
    let mut i: usize = 0;
    while i < v.len()
        invariant
            i <= v.len(),
            comps(out@) == strs(v@).take(i as int),
        decreases v.len() - i,
    {
        let c = chars_of(v[i].as_str());
        proof {
            assert(comps(out@.push(c)) =~= comps(out@).push(c@));
            assert(strs(v@).take(i + 1) =~= strs(v@).take(i as int).push(v@[i as int]@));
        }
        out.push(c);
        i = i + 1;
    }
    proof {
        assert(strs(v@).take(v@.len() as int) == strs(v@));
    }
    out
}

/// The names of the files.
pub open spec fn file_names(files: Seq<File>) -> Seq<Seq<char>> {
    files.map_values(|f: File| f.name@)
}

/// The names of the commit files.
pub open spec fn commit_file_names(files: Seq<CommitFile>) -> Seq<Seq<char>> {
    files.map_values(|f: CommitFile| f.name@)
}

/// The flattened tree of the working-tree files, with the directories in
/// `collapsed_dirs` collapsed (their nodes shown, what lies below them not); `.`
/// collapses the whole tree into its root.
pub fn build_file_tree(files: &[File], collapsed_dirs: &[String]) -> (nodes: Vec<FileTreeNode>)
    ensures
        is_file_tree(file_names(files@), strs(collapsed_dirs@), node_views(nodes@)),
{
    let mut names: Vec<Vec<char>> = Vec::new();
    let mut i: usize = 0;
    while i < files.len()
        invariant
            i <= files.len(),
            comps(names@) == file_names(files@).take(i as int),
        decreases files.len() - i,
    {
        let c = chars_of(files[i].name.as_str());
        proof {
            assert(comps(names@.push(c)) =~= comps(names@).push(c@));
            assert(file_names(files@).take(i + 1) =~= file_names(files@).take(i as int).push(files@[i as int].name@));
        }
        names.push(c);
        i = i + 1;
    }
    proof {
        assert(file_names(files@).take(files@.len() as int) == file_names(files@));
    }
    let collapsed = char_lists(collapsed_dirs);
    build_tree(&names, &collapsed)
}

/// A node of the flattened tree of the files of a commit.
#[derive(Debug, Clone)]
pub struct CommitFileTreeNode {
    pub depth: usize,
    pub name: String,
    pub path: String,
    /// For a file, its index in the commit's file list.
    pub file_index: Option<usize>,
    pub is_dir: bool,
}

impl View for CommitFileTreeNode {
    type V = TreeNodeView;

    open spec fn view(&self) -> TreeNodeView {
        TreeNodeView {
            depth: self.depth as int,
            name: self.name@,
            path: self.path@,
            file_index: self.file_index,
            is_dir: self.is_dir,
            children: Seq::empty(),
        }
    }
}

/// A node without the list of the files below it.
pub open spec fn without_children(t: TreeNodeView) -> TreeNodeView {
    TreeNodeView {
        depth: t.depth,
        name: t.name,
        path: t.path,
        file_index: t.file_index,
        is_dir: t.is_dir,
        children: Seq::empty(),
    }
}

/// The views of a list of commit-file nodes.
pub open spec fn commit_node_views(v: Seq<CommitFileTreeNode>) -> Seq<TreeNodeView> {
    v.map_values(|n: CommitFileTreeNode| n@)
}

/// The flattened tree of the files of a commit, with the directories in
/// `collapsed_dirs` collapsed: the same nodes as `build_file_tree` gives for these
/// paths, without the lists of files below directories.
pub fn build_commit_file_tree(files: &[CommitFile], collapsed_dirs: &[String]) -> (nodes: Vec<CommitFileTreeNode>)
    ensures
        exists|full: Seq<TreeNodeView>|
            is_file_tree(commit_file_names(files@), strs(collapsed_dirs@), full)
                && commit_node_views(nodes@) == full.map_values(|t: TreeNodeView| without_children(t)),
{
    let mut names: Vec<Vec<char>> = Vec::new();
    let mut i: usize = 0;
    while i < files.len()
        invariant
            i <= files.len(),
            comps(names@) == commit_file_names(files@).take(i as int),
        decreases files.len() - i,
    {
        let c = chars_of(files[i].name.as_str());
        proof {
            assert(comps(names@.push(c)) =~= comps(names@).push(c@));
            assert(commit_file_names(files@).take(i + 1) =~= commit_file_names(files@).take(i as int).push(files@[i as int].name@));
        }
        names.push(c);
        i = i + 1;
    }
    proof {
        assert(commit_file_names(files@).take(files@.len() as int) == commit_file_names(files@));
    }
    let collapsed = char_lists(collapsed_dirs);
    let full = build_tree(&names, &collapsed);
    let ghost fv = node_views(full@);
    let mut nodes: Vec<CommitFileTreeNode> = Vec::new();
    let mut k: usize = 0;
    while k < full.len()
        invariant
            k <= full.len(),
            fv == node_views(full@),
            commit_node_views(nodes@) == fv.take(k as int).map_values(|t: TreeNodeView| without_children(t)),
        decreases full.len() - k,
    {
        let f = &full[k];
        let node = CommitFileTreeNode {
            depth: f.depth,
            name: f.name.clone(),
            path: f.path.clone(),
            file_index: f.file_index,
            is_dir: f.is_dir,
        };
        proof {
            assert(node@ == without_children(fv[k as int]));
            assert(commit_node_views(nodes@.push(node)) =~= commit_node_views(nodes@).push(node@));
            assert(fv.take(k + 1).map_values(|t: TreeNodeView| without_children(t)) =~= fv.take(k as int).map_values(
                |t: TreeNodeView| without_children(t),
            ).push(without_children(fv[k as int])));
        }
        nodes.push(node);
        k = k + 1;
    }
    proof {
        assert(fv.take(fv.len() as int) == fv);
    }
    nodes
}


// ---------------------------------------------------------------------------
// Laws of the tree
// ---------------------------------------------------------------------------

proof fn lemma_sorted_at(ps: Seq<Seq<Seq<char>>>, o1: Seq<usize>, o2: Seq<usize>, k: int)
    requires
        is_sorted_order(ps, o1),
        is_sorted_order(ps, o2),
        0 <= k < o1.len(),
    ensures
        o1[k] == o2[k],
    decreases k,
{
    assert forall|j: int| 0 <= j < k implies o1[j] == o2[j] by {
        lemma_sorted_at(ps, o1, o2, j);
    }
    let a = o1[k] as int;
    let b = o2[k] as int;
    if a != b {
        lemma_entry_lt_total(ps, a, b);
        if entry_lt(ps, a, b) {
            assert(occurs_in(o2, a));
            let p = choose|p: int| 0 <= p < o2.len() && #[trigger] o2[p] == a;
            if p < k {
                assert(o1[p] == o2[p]);
                assert(entry_lt(ps, o1[p] as int, o1[k] as int));
                lemma_entry_lt_irrefl(ps, a);
            } else if p > k {
                assert(entry_lt(ps, o2[k] as int, o2[p] as int));
                lemma_entry_lt_trans(ps, a, b, a);
                lemma_entry_lt_irrefl(ps, a);
            }
        } else {
            assert(occurs_in(o1, b));
            let q = choose|q: int| 0 <= q < o1.len() && #[trigger] o1[q] == b;
            if q < k {
                assert(o1[q] == o2[q]);
                assert(entry_lt(ps, o2[q] as int, o2[k] as int));
                lemma_entry_lt_irrefl(ps, b);
            } else if q > k {
                assert(entry_lt(ps, o1[k] as int, o1[q] as int));
                lemma_entry_lt_trans(ps, a, b, a);
                lemma_entry_lt_irrefl(ps, a);
            }
        }
    }
}

/// There is one sorted order of the entries: the stable sort by path components.
pub proof fn lemma_sorted_order_unique(ps: Seq<Seq<Seq<char>>>, o1: Seq<usize>, o2: Seq<usize>)
    requires
        is_sorted_order(ps, o1),
        is_sorted_order(ps, o2),
    ensures
        o1 == o2,
{
    assert forall|k: int| 0 <= k < o1.len() implies o1[k] == o2[k] by {
        lemma_sorted_at(ps, o1, o2, k);
    }
    assert(o1 =~= o2);
}

/// The tree of a list of paths is determined by the paths and the collapsed
/// directories: two trees of the same paths are the same.
pub proof fn lemma_file_tree_unique(names: Seq<Seq<char>>, collapsed: Seq<Seq<char>>, t1: Seq<TreeNodeView>, t2: Seq<TreeNodeView>)
    requires
        is_file_tree(names, collapsed, t1),
        is_file_tree(names, collapsed, t2),
    ensures
        t1 == t2,
{
    let o1 = choose|o: Seq<usize>| is_sorted_order(name_parts(names), o) && t1 == tree_view(name_parts(names), o, collapsed);
    let o2 = choose|o: Seq<usize>| is_sorted_order(name_parts(names), o) && t2 == tree_view(name_parts(names), o, collapsed);
    lemma_sorted_order_unique(name_parts(names), o1, o2);
}

/// The files panel and the commit-files panel draw the same tree for the same paths:
/// with the names of a commit's files equal to those of a file list (repeated names
/// included, which keep their list order), and the same directories collapsed, the
/// commit-files tree is the files tree without the directories' file lists.
pub proof fn lemma_commit_tree_is_file_tree(
    files: Seq<File>,
    commit_files: Seq<CommitFile>,
    collapsed: Seq<Seq<char>>,
    file_nodes: Seq<FileTreeNode>,
    commit_nodes: Seq<CommitFileTreeNode>,
)
    requires
        commit_file_names(commit_files) == file_names(files),
        is_file_tree(file_names(files), collapsed, node_views(file_nodes)),
        exists|full: Seq<TreeNodeView>|
            is_file_tree(commit_file_names(commit_files), collapsed, full)
                && commit_node_views(commit_nodes) == full.map_values(|t: TreeNodeView| without_children(t)),
    ensures
        commit_node_views(commit_nodes) == node_views(file_nodes).map_values(|t: TreeNodeView| without_children(t)),
{
    let full = choose|full: Seq<TreeNodeView>|
        is_file_tree(commit_file_names(commit_files), collapsed, full)
            && commit_node_views(commit_nodes) == full.map_values(|t: TreeNodeView| without_children(t));
    lemma_file_tree_unique(file_names(files), collapsed, full, node_views(file_nodes));
}

/// Every node of `t` that stands for a file is that file's node: not a directory, and its
/// path is the file's name.
pub open spec fn file_nodes_named(names: Seq<Seq<char>>, t: Seq<TreeNodeView>) -> bool {
    forall|k: int|
        0 <= k < t.len() && (#[trigger] t[k]).file_index is Some ==> {
            let i = t[k].file_index->0 as int;
            &&& 0 <= i < names.len()
            &&& !t[k].is_dir
            &&& t[k].path == names[i]
        }
}

proof fn lemma_dir_nodes_no_file(
    ps: Seq<Seq<Seq<char>>>,
    order: Seq<usize>,
    collapsed: Seq<Seq<char>>,
    parts: Seq<Seq<char>>,
    lo: int,
    hi: int,
)
    ensures
        forall|k: int| 0 <= k < dir_nodes(ps, order, collapsed, parts, lo, hi).len() ==> (#[trigger] dir_nodes(ps, order, collapsed, parts, lo, hi)[k]).file_index is None,
    decreases hi - lo,
{
    if hi > lo {
        lemma_dir_nodes_no_file(ps, order, collapsed, parts, lo, hi - 1);
        let d = dir_nodes(ps, order, collapsed, parts, lo, hi);
        let r = dir_nodes(ps, order, collapsed, parts, lo, hi - 1);
        assert forall|k: int| 0 <= k < d.len() implies (#[trigger] d[k]).file_index is None by {
            if k < r.len() {
                assert(d[k] == r[k]);
            }
        }
    }
}

proof fn lemma_entries_named(names: Seq<Seq<char>>, order: Seq<usize>, collapsed: Seq<Seq<char>>, k: int)
    requires
        is_sorted_order(name_parts(names), order),
        0 <= k <= names.len(),
    ensures
        file_nodes_named(names, entries_nodes(name_parts(names), order, collapsed, k)),
    decreases k,
{
    let ps = name_parts(names);
    if k > 0 {
        lemma_entries_named(names, order, collapsed, k - 1);
        let prev = entries_nodes(ps, order, collapsed, k - 1);
        let e = entry_nodes(ps, order, collapsed, k - 1);
        let all = entries_nodes(ps, order, collapsed, k);
        assert(all == prev + e);
        let i = order[k - 1];
        let parts = ps[i as int];
        let m = parts.len() - 1;
        let cp = common_len(prev_dirs(ps, order, k - 1), parts.drop_last()) as int;
        lemma_dir_nodes_no_file(ps, order, collapsed, parts, cp, m);
        crate::text::lemma_join_split(names[i as int], '/');
        assert(parts == split_char(names[i as int], '/'));
        assert forall|j: int| 0 <= j < all.len() && (#[trigger] all[j]).file_index is Some implies {
            let f = all[j].file_index->0 as int;
            &&& 0 <= f < names.len()
            &&& !all[j].is_dir
            &&& all[j].path == names[f]
        } by {
            if j < prev.len() {
                assert(all[j] == prev[j]);
            } else {
                assert(all[j] == e[j - prev.len()]);
                let dirs = dir_nodes(ps, order, collapsed, parts, cp, m);
                if j - prev.len() < dirs.len() {
                    assert(e[j - prev.len()] == dirs[j - prev.len()]);
                } else {
                    assert(e[j - prev.len()] == file_node_view(parts, i));
                }
            }
        }
    }
}

/// Each file node of a tree stands for its file: it is no directory and its path is the
/// file's name.
pub proof fn lemma_file_nodes_named(names: Seq<Seq<char>>, collapsed: Seq<Seq<char>>, t: Seq<TreeNodeView>)
    requires
        is_file_tree(names, collapsed, t),
    ensures
        file_nodes_named(names, t),
{
    let ps = name_parts(names);
    let o = choose|o: Seq<usize>| is_sorted_order(ps, o) && t == tree_view(ps, o, collapsed);
    if ps.len() > 0 && !collapsed.contains(seq!['.']) {
        lemma_entries_named(names, o, collapsed, ps.len() as int);
        let e = entries_nodes(ps, o, collapsed, ps.len() as int);
        assert forall|k: int| 0 <= k < t.len() && (#[trigger] t[k]).file_index is Some implies {
            let i = t[k].file_index->0 as int;
            &&& 0 <= i < names.len()
            &&& !t[k].is_dir
            &&& t[k].path == names[i]
        } by {
            if k > 0 {
                assert(t[k] == e[k - 1]);
            }
        }
    }
}

proof fn lemma_entries_prefix(ps: Seq<Seq<Seq<char>>>, order: Seq<usize>, collapsed: Seq<Seq<char>>, k: int, n: int)
    requires
        0 <= k <= n,
    ensures
        entries_nodes(ps, order, collapsed, k).len() <= entries_nodes(ps, order, collapsed, n).len(),
        forall|j: int| 0 <= j < entries_nodes(ps, order, collapsed, k).len() ==> #[trigger] entries_nodes(ps, order, collapsed, n)[j] == entries_nodes(ps, order, collapsed, k)[j],
    decreases n - k,
{
    if n > k {
        lemma_entries_prefix(ps, order, collapsed, k, n - 1);
        let a = entries_nodes(ps, order, collapsed, n - 1);
        let b = entries_nodes(ps, order, collapsed, n);
        assert(b == a + entry_nodes(ps, order, collapsed, n - 1));
        assert forall|j: int| 0 <= j < entries_nodes(ps, order, collapsed, k).len() implies #[trigger] entries_nodes(ps, order, collapsed, n)[j] == entries_nodes(ps, order, collapsed, k)[j] by {
            assert(b[j] == a[j]);
        }
    }
}

/// With no directory collapsed, every file has a node in the tree.
pub proof fn lemma_every_file_shown(names: Seq<Seq<char>>, t: Seq<TreeNodeView>, i: int)
    requires
        is_file_tree(names, seq![], t),
        0 <= i < names.len(),
    ensures
        exists|k: int| 0 <= k < t.len() && (#[trigger] t[k]).file_index == Some(i as usize),
{
    let ps = name_parts(names);
    let collapsed: Seq<Seq<char>> = seq![];
    let o = choose|o: Seq<usize>| is_sorted_order(ps, o) && t == tree_view(ps, o, collapsed);
    assert(occurs_in(o, i));
    let p = choose|p: int| 0 <= p < o.len() && #[trigger] o[p] == i;
    let parts = ps[i];
    let m = parts.len() - 1;
    assert(!under_collapsed(collapsed, parts, m)) by {
        if under_collapsed(collapsed, parts, m) {
            let j = choose|j: int| 0 <= j < m && #[trigger] dir_collapsed(collapsed, parts, j);
        }
    }
    let e = entry_nodes(ps, o, collapsed, p);
    assert(e.last() == file_node_view(parts, i as usize));
    lemma_entries_prefix(ps, o, collapsed, p + 1, ps.len() as int);
    let before = entries_nodes(ps, o, collapsed, p);
    let upto = entries_nodes(ps, o, collapsed, p + 1);
    assert(upto == before + e);
    let j = upto.len() - 1;
    assert(upto[j] == e.last());
    let all = entries_nodes(ps, o, collapsed, ps.len() as int);
    assert(all[j] == upto[j]);
    assert(!collapsed.contains(seq!['.']));
    assert(t[j + 1] == all[j]);
    assert(t[j + 1].file_index == Some(i as usize));
}

/// The tree of no files is empty; any other tree starts with the root `.`, at depth 0,
/// holding every file; with `.` collapsed the root is all there is.
pub proof fn lemma_tree_root(names: Seq<Seq<char>>, collapsed: Seq<Seq<char>>, t: Seq<TreeNodeView>)
    requires
        is_file_tree(names, collapsed, t),
    ensures
        names.len() == 0 ==> t.len() == 0,
        names.len() > 0 ==> t.len() >= 1 && t[0] == root_view(names.len()),
        names.len() > 0 && collapsed.contains(seq!['.']) ==> t == seq![root_view(names.len())],
{
    let order = choose|order: Seq<usize>|
        is_sorted_order(name_parts(names), order) && t == tree_view(name_parts(names), order, collapsed);
    assert(name_parts(names).len() == names.len());
}

} // verus!

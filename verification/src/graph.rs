use vstd::prelude::*;

use crate::model::Commit;

verus! {

/// One cell of the commit graph, two terminal columns wide.
#[derive(Debug, Clone, Copy, PartialEq, Eq, Structural)]
pub enum GraphCell {
    /// The commit node.
    Node,
    /// A vertical line passing through.
    Pipe,
    /// Merge connector to a lane right of the commit.
    MergeRight,
    /// A lane right of the commit ends here and bends towards it.
    ConvergeFromRight,
    /// A lane left of the commit ends here and bends towards it.
    ConvergeFromLeft,
    /// Horizontal connector.
    Horizontal,
    /// Merge connector to a lane left of the commit.
    MergeLeft,
    /// Nothing.
    Empty,
}

/// The graph cells of one commit row.
#[derive(Debug, Clone)]
pub struct GraphRow {
    /// The column of the commit's node.
    pub commit_col: usize,
    /// The cells drawn before the commit's text.
    pub cells: Vec<GraphCell>,
}

/// A lane: the hash of the commit it waits for, or nothing.
pub type LaneView = Option<Seq<char>>;

/// The abstract lanes of concrete lanes.
pub open spec fn lanes_view(v: Seq<Option<String>>) -> Seq<LaneView> {
    v.map_values(|o: Option<String>| match o {
        Some(s) => Some(s@),
        None => None,
    })
}

/// The first lane at or after `i` that waits for `h`, or -1.
pub open spec fn first_lane_from(lanes: Seq<LaneView>, h: Seq<char>, i: int) -> int
    decreases lanes.len() - i,
{
    if i < 0 || i >= lanes.len() {
        -1
    } else if lanes[i] == Some(h) {
        i
    } else {
        first_lane_from(lanes, h, i + 1)
    }
}

/// The first empty lane at or after `i`, or -1.
pub open spec fn first_empty_from(lanes: Seq<LaneView>, i: int) -> int
    decreases lanes.len() - i,
{
    if i < 0 || i >= lanes.len() {
        -1
    } else if lanes[i] is None {
        i
    } else {
        first_empty_from(lanes, i + 1)
    }
}

/// The column a commit takes: the first lane waiting for it, else the first empty
/// lane, else a new lane at the end.
pub open spec fn commit_column(lanes: Seq<LaneView>, h: Seq<char>) -> int {
    let f = first_lane_from(lanes, h, 0);
    if f >= 0 {
        f
    } else {
        let e = first_empty_from(lanes, 0);
        if e >= 0 {
            e
        } else {
            lanes.len() as int
        }
    }
}

/// A merge parent takes the lane that already waits for it, else the first empty
/// lane, else a new lane at the end.
pub open spec fn place_merge(lanes: Seq<LaneView>, mp: Seq<char>) -> (Seq<LaneView>, int) {
    let e = first_lane_from(lanes, mp, 0);
    if e >= 0 {
        (lanes, e)
    } else {
        let f = first_empty_from(lanes, 0);
        if f >= 0 {
            (lanes.update(f, Some(mp)), f)
        } else {
            (lanes.push(Some(mp)), lanes.len() as int)
        }
    }
}

/// Places the merge parents one after the other; gives the lanes and their columns.
pub open spec fn place_merges(lanes: Seq<LaneView>, mps: Seq<Seq<char>>) -> (Seq<LaneView>, Seq<int>)
    decreases mps.len(),
{
    if mps.len() == 0 {
        (lanes, seq![])
    } else {
        let (l1, m) = place_merge(lanes, mps[0]);
        let (l2, ms) = place_merges(l1, mps.drop_first());
        (l2, seq![m] + ms)
    }
}

/// The lanes once the commit has its column (a new lane appended when needed).
pub open spec fn lanes_with_column(lanes: Seq<LaneView>, h: Seq<char>) -> Seq<LaneView> {
    if commit_column(lanes, h) == lanes.len() {
        lanes.push(None)
    } else {
        lanes
    }
}

/// The lanes once every lane waiting for the commit is closed and its first parent
/// continues in its column.
pub open spec fn lanes_after_commit(lanes: Seq<LaneView>, h: Seq<char>, parents: Seq<Seq<char>>) -> Seq<
    LaneView,
> {
    let l1 = lanes_with_column(lanes, h);
    let l2 = Seq::new(l1.len(), |i: int| if l1[i] == Some(h) { None } else { l1[i] });
    if parents.len() > 0 {
        l2.update(commit_column(lanes, h), Some(parents[0]))
    } else {
        l2
    }
}

/// The merge parents of a commit: all parents but the first.
pub open spec fn merge_parents(parents: Seq<Seq<char>>) -> Seq<Seq<char>> {
    if parents.len() > 1 {
        parents.skip(1)
    } else {
        seq![]
    }
}

/// Whether some merge column lies beyond `i` as seen from the commit column.
pub open spec fn merge_beyond(ms: Seq<int>, col: int, i: int) -> bool {
    exists|k: int| 0 <= k < ms.len() && ((ms[k] > col && col < i < ms[k]) || (ms[k] < col && ms[k] < i < col))
}

/// Whether the lane at `i` waited for the commit (it closes at this row).
pub open spec fn is_closing(l1: Seq<LaneView>, h: Seq<char>, i: int) -> bool {
    0 <= i < l1.len() && l1[i] == Some(h)
}

/// The cell at `i` of a row.  The commit node sits in its column; merge columns get a
/// merge connector; other open lanes a pipe.  A closing lane right of the commit
/// bends towards it, unless a merge line already crosses it; one left of the commit
/// does so only when no merge line and no closing lane further left crosses it.
/// Free cells crossed by a merge line or by the line of a closing lane are horizontal.
pub open spec fn cell_at(
    l1: Seq<LaneView>,
    h: Seq<char>,
    lanes: Seq<LaneView>,
    ms: Seq<int>,
    col: int,
    i: int,
) -> GraphCell {
    let hm = merge_beyond(ms, col, i);
    if i == col {
        GraphCell::Node
    } else if ms.contains(i) {
        if i > col {
            GraphCell::MergeRight
        } else {
            GraphCell::MergeLeft
        }
    } else if 0 <= i < lanes.len() && lanes[i] is Some {
        GraphCell::Pipe
    } else if i > col {
        if is_closing(l1, h, i) {
            if hm {
                GraphCell::Horizontal
            } else {
                GraphCell::ConvergeFromRight
            }
        } else if hm || exists|c: int| c > i && is_closing(l1, h, c) {
            GraphCell::Horizontal
        } else {
            GraphCell::Empty
        }
    } else {
        if hm || exists|c: int| c < i && is_closing(l1, h, c) {
            GraphCell::Horizontal
        } else if is_closing(l1, h, i) {
            GraphCell::ConvergeFromLeft
        } else {
            GraphCell::Empty
        }
    }
}

/// `cells` without its trailing empty cells.
pub open spec fn trim_empty(cells: Seq<GraphCell>) -> Seq<GraphCell>
    decreases cells.len(),
{
    if cells.len() > 0 && cells.last() == GraphCell::Empty {
        trim_empty(cells.drop_last())
    } else {
        cells
    }
}

/// `lanes` without its trailing empty lanes.
pub open spec fn trim_none(lanes: Seq<LaneView>) -> Seq<LaneView>
    decreases lanes.len(),
{
    if lanes.len() > 0 && lanes.last() is None {
        trim_none(lanes.drop_last())
    } else {
        lanes
    }
}

/// The row drawn for one commit and the lanes that follow it.
pub open spec fn graph_step(lanes: Seq<LaneView>, h: Seq<char>, parents: Seq<Seq<char>>) -> (
    Seq<LaneView>,
    (int, Seq<GraphCell>),
) {
    let col = commit_column(lanes, h);
    let l1 = lanes_with_column(lanes, h);
    let (fl, ms) = place_merges(lanes_after_commit(lanes, h, parents), merge_parents(parents));
    let width = if fl.len() > col + 1 {
        fl.len() as int
    } else {
        col + 1
    };
    let cells = Seq::new(width as nat, |i: int| cell_at(l1, h, fl, ms, col, i));
    (trim_none(fl), (col, trim_empty(cells)))
}

/// The rows of a list of commits, each a hash with its parents, newest first, starting
/// from the given lanes.
pub open spec fn graph_rows(lanes: Seq<LaneView>, commits: Seq<(Seq<char>, Seq<Seq<char>>)>) -> Seq<
    (int, Seq<GraphCell>),
>
    decreases commits.len(),
{
    if commits.len() == 0 {
        seq![]
    } else {
        let (next, row) = graph_step(lanes, commits[0].0, commits[0].1);
        seq![row] + graph_rows(next, commits.drop_first())
    }
}

/// The abstract view of a graph input.
pub open spec fn graph_input_view(commits: Seq<(String, Vec<String>)>) -> Seq<(Seq<char>, Seq<Seq<char>>)> {
    commits.map_values(|c: (String, Vec<String>)| (c.0@, c.1@.map_values(|p: String| p@)))
}

/// The abstract view of computed rows.
pub open spec fn rows_view(rows: Seq<GraphRow>) -> Seq<(int, Seq<GraphCell>)> {
    rows.map_values(|r: GraphRow| (r.commit_col as int, r.cells@))
}

/// `first_lane_from` is -1 or the index of a lane at or after `i` that waits for `h`.
pub proof fn lemma_first_lane(lanes: Seq<LaneView>, h: Seq<char>, i: int)
    requires
        0 <= i,
    ensures
        first_lane_from(lanes, h, i) == -1 || (i <= first_lane_from(lanes, h, i) < lanes.len()
            && lanes[first_lane_from(lanes, h, i)] == Some(h)),
    decreases lanes.len() - i,
{
    if i < lanes.len() && lanes[i] != Some(h) {
        lemma_first_lane(lanes, h, i + 1);
    }
}

/// `first_empty_from` is -1 or the index of an empty lane at or after `i`.
pub proof fn lemma_first_empty(lanes: Seq<LaneView>, i: int)
    requires
        0 <= i,
    ensures
        first_empty_from(lanes, i) == -1 || (i <= first_empty_from(lanes, i) < lanes.len()
            && lanes[first_empty_from(lanes, i)] is None),
    decreases lanes.len() - i,
{
    if i < lanes.len() && !(lanes[i] is None) {
        lemma_first_empty(lanes, i + 1);
    }
}

/// The lanes `l1` with the lanes below `i` that wait for `h` emptied.
pub open spec fn cleared_below(l1: Seq<LaneView>, h: Seq<char>, i: int) -> Seq<LaneView> {
    Seq::new(l1.len(), |k: int| if k < i && l1[k] == Some(h) { None } else { l1[k] })
}

/// A closing lane beyond `i` exists exactly when the flags say so.
proof fn lemma_closing_flags(closing: Seq<bool>, l1: Seq<LaneView>, h: Seq<char>, i: int)
    requires
        closing.len() == l1.len(),
        forall|j: int| 0 <= j < l1.len() ==> closing[j] == (l1[j] == Some(h)),
    ensures
        (exists|x: int| x > i && is_closing(l1, h, x)) == (exists|x: int| x > i && 0 <= x < closing.len() && closing[x]),
        (exists|x: int| x < i && is_closing(l1, h, x)) == (exists|x: int| x < i && 0 <= x < closing.len() && closing[x]),
{
    if exists|x: int| x > i && is_closing(l1, h, x) {
        let x = choose|x: int| x > i && is_closing(l1, h, x);
        assert(closing[x]);
    }
    if exists|x: int| x > i && 0 <= x < closing.len() && closing[x] {
        let x = choose|x: int| x > i && 0 <= x < closing.len() && closing[x];
        assert(is_closing(l1, h, x));
    }
    if exists|x: int| x < i && is_closing(l1, h, x) {
        let x = choose|x: int| x < i && is_closing(l1, h, x);
        assert(closing[x]);
    }
    if exists|x: int| x < i && 0 <= x < closing.len() && closing[x] {
        let x = choose|x: int| x < i && 0 <= x < closing.len() && closing[x];
        assert(is_closing(l1, h, x));
    }
}

// ---------------------------------------------------------------------------
// Executable parts
// ---------------------------------------------------------------------------

/// Whether the lane waits for `h`.
fn lane_is(lane: &Option<String>, h: &String) -> (b: bool)
    ensures
        b == (match lane {
            Some(s) => Some(s@),
            None => None,
        } == Some(h@)),
{
    match lane {
        Some(s) => *s == *h,
        None => false,
    }
}

/// The first lane that waits for `h`, if any.
fn find_lane(lanes: &Vec<Option<String>>, h: &String) -> (r: Option<usize>)
    ensures
        match r {
            Some(i) => first_lane_from(lanes_view(lanes@), h@, 0) == i as int,
            None => first_lane_from(lanes_view(lanes@), h@, 0) == -1,
        },
{
    let ghost lv = lanes_view(lanes@);
    let mut i: usize = 0;
    while i < lanes.len()
        invariant
            i <= lanes.len(),
            lv == lanes_view(lanes@),
            first_lane_from(lv, h@, 0) == first_lane_from(lv, h@, i as int),
        decreases lanes.len() - i,
    {
        if lane_is(&lanes[i], h) {
            return Some(i);
        }
        i = i + 1;
    }
    None
}

/// The first empty lane, if any.
fn find_empty(lanes: &Vec<Option<String>>) -> (r: Option<usize>)
    ensures
        match r {
            Some(i) => first_empty_from(lanes_view(lanes@), 0) == i as int,
            None => first_empty_from(lanes_view(lanes@), 0) == -1,
        },
{
    let ghost lv = lanes_view(lanes@);
    let mut i: usize = 0;
    while i < lanes.len()
        invariant
            i <= lanes.len(),
            lv == lanes_view(lanes@),
            first_empty_from(lv, 0) == first_empty_from(lv, i as int),
        decreases lanes.len() - i,
    {
        if lanes[i].is_none() {
            return Some(i);
        }
        i = i + 1;
    }
    None
}

/// Whether `i` is one of the merge columns.
fn contains_col(ms: &Vec<usize>, i: usize) -> (b: bool)
    ensures
        b == ms@.map_values(|m: usize| m as int).contains(i as int),
{
    let ghost mi = ms@.map_values(|m: usize| m as int);
    let mut k: usize = 0;
    while k < ms.len()
        invariant
            k <= ms.len(),
            mi == ms@.map_values(|m: usize| m as int),
            forall|j: int| 0 <= j < k ==> ms@[j] != i,
        decreases ms.len() - k,
    {
        if ms[k] == i {
            proof {
                assert(mi[k as int] == i as int);
            }
            return true;
        }
        k = k + 1;
    }
    proof {
        if mi.contains(i as int) {
            let j = choose|j: int| 0 <= j < mi.len() && mi[j] == i as int;
            assert(ms@[j] == i);
        }
    }
    false
}

/// Whether some merge column lies beyond `i` as seen from `col`.
fn merge_beyond_exec(ms: &Vec<usize>, col: usize, i: usize) -> (b: bool)
    ensures
        b == merge_beyond(ms@.map_values(|m: usize| m as int), col as int, i as int),
{
    let ghost mi = ms@.map_values(|m: usize| m as int);
    let mut k: usize = 0;
    while k < ms.len()
        invariant
            k <= ms.len(),
            mi == ms@.map_values(|m: usize| m as int),
            forall|j: int|
                0 <= j < k ==> !((mi[j] > col && col < i < mi[j]) || (mi[j] < col && mi[j] < i < col)),
        decreases ms.len() - k,
    {
        let m = ms[k];
        if (m > col && col < i && i < m) || (m < col && m < i && i < col) {
            proof {
                assert(mi[k as int] == m as int);
            }
            return true;
        }
        k = k + 1;
    }
    false
}

/// Whether some closing lane lies strictly right of `i` (when `right`) or strictly left.
fn closing_beyond(closing: &Vec<bool>, i: usize, right: bool) -> (b: bool)
    ensures
        right ==> b == exists|c: int| c > i && 0 <= c < closing@.len() && closing@[c],
        !right ==> b == exists|c: int| c < i && 0 <= c < closing@.len() && closing@[c],
{
    let mut k: usize = 0;
    while k < closing.len()
        invariant
            k <= closing.len(),
            forall|c: int| 0 <= c < k && (if right { c > i } else { c < i }) ==> !closing@[c],
        decreases closing.len() - k,
    {
        if closing[k] && (if right { k > i } else { k < i }) {
            return true;
        }
        k = k + 1;
    }
    false
}

/// Computes the graph layout of commits given as (hash, parent hashes), newest first.
pub fn compute_graph(commits: &[(String, Vec<String>)]) -> (rows: Vec<GraphRow>)
    ensures
        rows_view(rows@) == graph_rows(Seq::empty(), graph_input_view(commits@)),
        rows@.len() == commits@.len(),
{
    let ghost input = graph_input_view(commits@);
    let mut lanes: Vec<Option<String>> = Vec::new();
    let mut rows: Vec<GraphRow> = Vec::new();
    let mut n: usize = 0;
    proof {
        assert(input.skip(0) == input);
        assert(rows_view(rows@) =~= Seq::<(int, Seq<GraphCell>)>::empty());
        assert(lanes_view(lanes@) =~= Seq::<LaneView>::empty());
        assert(rows_view(rows@) + graph_rows(lanes_view(lanes@), input) =~= graph_rows(Seq::empty(), input));
    }
    while n < commits.len()
        invariant
            n <= commits.len(),
            input == graph_input_view(commits@),
            rows@.len() == n,
            rows_view(rows@) + graph_rows(lanes_view(lanes@), input.skip(n as int)) == graph_rows(
                Seq::empty(),
                input,
            ),
        decreases commits.len() - n,
    {
        let hash = &commits[n].0;
        let parents = &commits[n].1;
        let ghost lv0 = lanes_view(lanes@);
        let ghost h = hash@;
        let ghost ps = parents@.map_values(|p: String| p@);
        proof {
            assert(input[n as int] == (h, ps));
            assert(input.skip(n as int).drop_first() == input.skip(n + 1));
            assert(input.skip(n as int)[0] == (h, ps));
        }
        // 1. The commit's column.
        let commit_col: usize = match find_lane(&lanes, hash) {
            Some(c) => c,
            None => match find_empty(&lanes) {
                Some(e) => e,
                None => {
                    lanes.push(None);
                    proof {
                        assert(lanes_view(lanes@) == lv0.push(None));
                    }
                    lanes.len() - 1
                },
            },
        };
        let ghost l1 = lanes_view(lanes@);
        proof {
            lemma_first_lane(lv0, h, 0);
            lemma_first_empty(lv0, 0);
            assert(commit_col as int == commit_column(lv0, h));
            assert(commit_col < lanes@.len());
            assert(l1 == lanes_with_column(lv0, h));
        }
        // 2. Close every lane that waits for this commit.
        let mut closing: Vec<bool> = Vec::new();
        let mut i: usize = 0;
        proof {
            assert(lanes_view(lanes@) =~= cleared_below(l1, h, 0));
        }
        while i < lanes.len()
            invariant
                i <= lanes.len(),
                h == hash@,
                lanes@.len() == l1.len(),
                commit_col < l1.len(),
                closing@.len() == i,
                forall|k: int| 0 <= k < i ==> closing@[k] == (l1[k] == Some(h)),
                lanes_view(lanes@) == cleared_below(l1, h, i as int),
            decreases lanes.len() - i,
        {
            let c = lane_is(&lanes[i], hash);
            proof {
                assert(c == (match lanes@[i as int] {
                    Some(s) => Some(s@),
                    None => None,
                } == Some(hash@)));
                assert(hash@ == h);
                assert(lanes_view(lanes@)[i as int] == (match lanes@[i as int] {
                    Some(s) => Some(s@),
                    None => None,
                }));
                assert(lanes_view(lanes@)[i as int] == l1[i as int]);
                assert(c == (l1[i as int] == Some(h)));
            }
            closing.push(c);
            let ghost before = lanes@;
            if c {
                lanes.set(i, None);
            }
            proof {
                assert forall|k: int| 0 <= k < lanes@.len() implies lanes_view(lanes@)[k] == cleared_below(l1, h, i + 1)[k] by {
                    assert(lanes_view(before)[k] == cleared_below(l1, h, i as int)[k]);
                    if k != i {
                        assert(lanes@[k] == before[k]);
                    }
                }
                assert(lanes_view(lanes@) =~= cleared_below(l1, h, i + 1));
            }
            i = i + 1;
        }
        // 3. The first parent continues in the commit's lane; merge parents get lanes.
        if parents.len() > 0 {
            lanes.set(commit_col, Some(parents[0].clone()));
        }
        let ghost l3 = lanes_view(lanes@);
        proof {
            let l2 = Seq::new(l1.len(), |k: int| if l1[k] == Some(h) { None } else { l1[k] });
            assert(cleared_below(l1, h, l1.len() as int) =~= l2);
            if parents@.len() > 0 {
                assert(ps[0] == parents@[0]@);
                assert(l3 =~= l2.update(commit_col as int, Some(ps[0])));
            } else {
                assert(l3 =~= l2);
            }
            assert(l3 == lanes_after_commit(lv0, h, ps));
        }
        let ghost mps = merge_parents(ps);
        let mut merge_cols: Vec<usize> = Vec::new();
        let mut k: usize = 1;
        proof {
            if ps.len() > 1 {
                assert(mps.skip(0) == mps);
            } else {
                assert(mps.skip(0) == mps);
            }
        }
        while k < parents.len()
            invariant
                1 <= k,
                k <= parents.len() || parents.len() == 0,
                ps == parents@.map_values(|p: String| p@),
                mps == merge_parents(ps),
                parents.len() > 1 ==> mps == ps.skip(1),
                merge_cols@.len() == k - 1,
                lanes@.len() >= l1.len(),
                commit_col < lanes@.len(),
                place_merges(l3, mps) == (
                    place_merges(lanes_view(lanes@), mps.skip(k - 1)).0,
                    merge_cols@.map_values(|m: usize| m as int) + place_merges(lanes_view(lanes@), mps.skip(k - 1)).1,
                ),
                forall|j: int| 0 <= j < merge_cols@.len() ==> merge_cols@[j] < lanes@.len(),
            decreases parents.len() - k,
        {
            let mp = &parents[k];
            let ghost lk = lanes_view(lanes@);
            proof {
                assert(mps.skip(k - 1)[0] == ps[k as int]);
                assert(mps.skip(k - 1).drop_first() == mps.skip(k as int));
                assert(ps[k as int] == mp@);
            }
            proof {
                lemma_first_lane(lk, mp@, 0);
                lemma_first_empty(lk, 0);
            }
            let mc: usize = match find_lane(&lanes, mp) {
                Some(e) => e,
                None => match find_empty(&lanes) {
                    Some(e) => {
                        lanes.set(e, Some(mp.clone()));
                        proof {
                            assert(lanes_view(lanes@) =~= lk.update(e as int, Some(mp@)));
                        }
                        e
                    },
                    None => {
                        lanes.push(Some(mp.clone()));
                        proof {
                            assert(lanes_view(lanes@) =~= lk.push(Some(mp@)));
                        }
                        lanes.len() - 1
                    },
                },
            };
            proof {
                assert((lanes_view(lanes@), mc as int) == place_merge(lk, mp@));
                assert(merge_cols@.push(mc).map_values(|m: usize| m as int) == merge_cols@.map_values(|m: usize| m as int).push(mc as int));
                assert(seq![mc as int] + place_merges(lanes_view(lanes@), mps.skip(k as int)).1 == place_merges(lk, mps.skip(k - 1)).1);
            }
            merge_cols.push(mc);
            k = k + 1;
        }
        let ghost fl = lanes_view(lanes@);
        let ghost ms = merge_cols@.map_values(|m: usize| m as int);
        proof {
            assert(mps.skip(merge_cols@.len() as int).len() == 0);
            assert((fl, ms) == place_merges(l3, mps));
        }
        // 4. The cells.
        let width: usize = if lanes.len() > commit_col + 1 {
            lanes.len()
        } else {
            commit_col + 1
        };
        let mut cells: Vec<GraphCell> = Vec::new();
        let mut c: usize = 0;
        while c < width
            invariant
                c <= width,
                cells@.len() == c,
                forall|j: int| 0 <= j < c ==> cells@[j] == cell_at(l1, h, fl, ms, commit_col as int, j),
                closing@.len() == l1.len(),
                forall|j: int| 0 <= j < l1.len() ==> closing@[j] == (l1[j] == Some(h)),
                fl == lanes_view(lanes@),
                ms == merge_cols@.map_values(|m: usize| m as int),
            decreases width - c,
        {
            let hm = merge_beyond_exec(&merge_cols, commit_col, c);
            let is_close = c < closing.len() && closing[c];
            proof {
                assert(is_close == is_closing(l1, h, c as int));
            }
            let cell = if c == commit_col {
                GraphCell::Node
            } else if contains_col(&merge_cols, c) {
                if c > commit_col {
                    GraphCell::MergeRight
                } else {
                    GraphCell::MergeLeft
                }
            } else if c < lanes.len() && lanes[c].is_some() {
                GraphCell::Pipe
            } else if c > commit_col {
                if is_close {
                    if hm {
                        GraphCell::Horizontal
                    } else {
                        GraphCell::ConvergeFromRight
                    }
                } else if hm || closing_beyond(&closing, c, true) {
                    GraphCell::Horizontal
                } else {
                    GraphCell::Empty
                }
            } else {
                if hm || closing_beyond(&closing, c, false) {
                    GraphCell::Horizontal
                } else if is_close {
                    GraphCell::ConvergeFromLeft
                } else {
                    GraphCell::Empty
                }
            };
            proof {
                lemma_closing_flags(closing@, l1, h, c as int);
                if c < lanes.len() {
                    assert(fl[c as int] is Some == lanes@[c as int] is Some);
                }
            }
            cells.push(cell);
            c = c + 1;
        }
        let ghost full = cells@;
        proof {
            assert(full =~= Seq::new(width as nat, |j: int| cell_at(l1, h, fl, ms, commit_col as int, j)));
        }
        // Trim trailing empties.
        while cells.len() > 0 && cells[cells.len() - 1] == GraphCell::Empty
            invariant
                trim_empty(cells@) == trim_empty(full),
            decreases cells.len(),
        {
            let ghost before = cells@;
            cells.pop();
            proof {
                assert(cells@ == before.drop_last());
            }
        }
        proof {
            assert(trim_empty(cells@) == cells@);
        }
        let row = GraphRow { commit_col, cells };
        proof {
            let (nl, rv) = graph_step(lv0, h, ps);
            assert(rv == (commit_col as int, trim_empty(full)));
        }
        rows.push(row);
        // Trim trailing empty lanes.
        while lanes.len() > 0 && lanes[lanes.len() - 1].is_none()
            invariant
                trim_none(lanes_view(lanes@)) == trim_none(fl),
            decreases lanes.len(),
        {
            let ghost before = lanes@;
            lanes.pop();
            proof {
                assert(lanes_view(before).drop_last() =~= lanes_view(lanes@));
            }
        }
        proof {
            assert(trim_none(lanes_view(lanes@)) == lanes_view(lanes@));
            assert(rows_view(rows@) == rows_view(rows@.drop_last()).push((commit_col as int, trim_empty(full))));
        }
        n = n + 1;
    }
    proof {
        assert(input.skip(n as int).len() == 0);
        assert(rows_view(rows@) + seq![] == rows_view(rows@));
    }
    rows
}


// ---------------------------------------------------------------------------
// Shape of the rows
// ---------------------------------------------------------------------------

/// Trimming trailing empty cells keeps every cell up to a non-empty one.
pub proof fn lemma_trim_empty_keeps(cells: Seq<GraphCell>, j: int)
    requires
        0 <= j < cells.len(),
        cells[j] != GraphCell::Empty,
    ensures
        j < trim_empty(cells).len() <= cells.len(),
        trim_empty(cells) == cells.take(trim_empty(cells).len() as int),
        trim_empty(cells).last() != GraphCell::Empty,
    decreases cells.len(),
{
    if cells.last() == GraphCell::Empty {
        lemma_trim_empty_keeps(cells.drop_last(), j);
        assert(cells.drop_last().take(trim_empty(cells).len() as int) == cells.take(
            trim_empty(cells).len() as int,
        ));
    } else {
        assert(cells.take(cells.len() as int) == cells);
    }
}

/// Every row drawn for a commit shows the commit node in its column, and ends in a
/// non-empty cell.
pub open spec fn row_well_formed(row: (int, Seq<GraphCell>)) -> bool {
    &&& 0 <= row.0 < row.1.len()
    &&& row.1[row.0] == GraphCell::Node
    &&& row.1.last() != GraphCell::Empty
}

/// Every row of a commit graph holds its commit's node in the commit's column, and
/// no row ends in an empty cell; there is one row per commit.
pub proof fn lemma_graph_rows_well_formed(lanes: Seq<LaneView>, commits: Seq<(Seq<char>, Seq<Seq<char>>)>)
    ensures
        graph_rows(lanes, commits).len() == commits.len(),
        forall|k: int| 0 <= k < commits.len() ==> row_well_formed(#[trigger] graph_rows(lanes, commits)[k]),
    decreases commits.len(),
{
    if commits.len() > 0 {
        let h = commits[0].0;
        let ps = commits[0].1;
        let (next, row) = graph_step(lanes, h, ps);
        let col = commit_column(lanes, h);
        lemma_first_lane(lanes, h, 0);
        lemma_first_empty(lanes, 0);
        let l1 = lanes_with_column(lanes, h);
        let (fl, ms) = place_merges(lanes_after_commit(lanes, h, ps), merge_parents(ps));
        let width = if fl.len() > col + 1 {
            fl.len() as int
        } else {
            col + 1
        };
        let cells = Seq::new(width as nat, |i: int| cell_at(l1, h, fl, ms, col, i));
        assert(cells[col] == GraphCell::Node);
        lemma_trim_empty_keeps(cells, col);
        assert(trim_empty(cells)[col] == cells[col]);
        assert(row_well_formed(row));
        lemma_graph_rows_well_formed(next, commits.drop_first());
        let rows = graph_rows(lanes, commits);
        assert forall|k: int| 0 <= k < commits.len() implies row_well_formed(#[trigger] rows[k]) by {
            if k > 0 {
                assert(rows[k] == graph_rows(next, commits.drop_first())[k - 1]);
            }
        }
    }
}

// ---------------------------------------------------------------------------
// Caching the layout of a commit list
// ---------------------------------------------------------------------------

/// The graph input of a list of commits: each commit's hash and parents.
pub open spec fn commits_graph_input(commits: Seq<Commit>) -> Seq<(Seq<char>, Seq<Seq<char>>)> {
    commits.map_values(|c: Commit| (c.hash@, c.parents@.map_values(|p: String| p@)))
}

/// The graph layout of a commit list, kept until the list's revision or length changes.
pub struct GraphLayoutCache {
    pub revision: Option<u64>,
    pub commit_count: usize,
    pub rows: Vec<GraphRow>,
}

impl GraphLayoutCache {
    /// An empty cache.
    pub fn new() -> (c: GraphLayoutCache)
        ensures
            c.revision.is_none(),
            c.commit_count == 0,
            c.rows@.len() == 0,
    {
        GraphLayoutCache { revision: None, commit_count: 0, rows: Vec::new() }
    }

    /// Recomputes the layout of `commits` unless it was computed for the same revision
    /// and the same number of commits.
    pub fn update(&mut self, commits: &[Commit], revision: u64)
        ensures
            old(self).revision == Some(revision) && old(self).commit_count == commits@.len() ==> *final(self) == *old(self),
            !(old(self).revision == Some(revision) && old(self).commit_count == commits@.len()) ==> {
                &&& final(self).revision == Some(revision)
                &&& final(self).commit_count == commits@.len()
                &&& rows_view(final(self).rows@) == graph_rows(Seq::empty(), commits_graph_input(commits@))
            },
    {
        if self.revision == Some(revision) && self.commit_count == commits.len() {
            return ;
        }
        let mut input: Vec<(String, Vec<String>)> = Vec::new();
        let mut i: usize = 0;
        while i < commits.len()
            invariant
                i <= commits.len(),
                graph_input_view(input@) == commits_graph_input(commits@).take(i as int),
            decreases commits.len() - i,
        {
            let hash = commits[i].hash.clone();
            let parents = crate::model::clone_strings(&commits[i].parents);
            let ghost prev = input@;
            proof {
                assert(hash@ == commits@[i as int].hash@);
            }
            input.push((hash, parents));
            proof {
                assert(input@ == prev.push((hash, parents)));
                assert(graph_input_view(input@) == graph_input_view(prev).push((hash@, parents@.map_values(|p: String| p@))));
                assert(graph_input_view(input@) =~= commits_graph_input(commits@).take(i + 1));
            }
            i = i + 1;
        }
        proof {
            assert(commits_graph_input(commits@).take(commits@.len() as int) == commits_graph_input(commits@));
        }
        self.rows = compute_graph(&input);
        self.revision = Some(revision);
        self.commit_count = commits.len();
    }
}

/// The cached graph layouts of the commit list and of the sub-commit list.
pub struct CommitListCache {
    pub commits: GraphLayoutCache,
    pub sub_commits: GraphLayoutCache,
}

impl CommitListCache {
    /// Two empty caches.
    pub fn new() -> (c: CommitListCache)
        ensures
            c.commits.revision.is_none(),
            c.sub_commits.revision.is_none(),
    {
        CommitListCache { commits: GraphLayoutCache::new(), sub_commits: GraphLayoutCache::new() }
    }
}

} // verus!

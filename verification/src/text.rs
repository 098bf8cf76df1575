use vstd::prelude::*;

verus! {

// ---------------------------------------------------------------------------
// Conversions between strings and character vectors
// ---------------------------------------------------------------------------

/// The characters of `s`, in order.
pub fn chars_of(s: &str) -> (out: Vec<char>)
    ensures
        out@ == s@,
{
    let mut out: Vec<char> = Vec::new();
    for c in it: s.chars()
        invariant
            out@ == it.seq().take(it.index() as int),
    {
        out.push(c);
    }
    out
}

/// Appends one character to a `String` (std's `String::push`).
#[verifier::external_body]
fn push_char(s: &mut String, c: char)
    ensures
        final(s)@ == old(s)@.push(c),
{
    s.push(c);
}

/// The string made of the characters of `v`, in order.
pub fn string_of(v: &[char]) -> (out: String)
    ensures
        out@ == v@,
{
    let mut out = String::new();
    let mut i: usize = 0;
    while i < v.len()
        invariant
            i <= v.len(),
            out@ == v@.take(i as int),
        decreases v.len() - i,
    {
        push_char(&mut out, v[i]);
        proof {
            assert(v@.take(i + 1) == v@.take(i as int).push(v@[i as int]));
        }
        i = i + 1;
    }
    proof {
        assert(v@.take(v@.len() as int) == v@);
    }
    out
}

// ---------------------------------------------------------------------------
// Searching for a character
// ---------------------------------------------------------------------------

/// Index of the first occurrence of `c` in `s`, or -1 when there is none.
pub open spec fn index_of(s: Seq<char>, c: char) -> int
    decreases s.len(),
{
    if s.len() == 0 {
        -1
    } else if s[0] == c {
        0
    } else {
        let r = index_of(s.drop_first(), c);
        if r < 0 {
            -1
        } else {
            r + 1
        }
    }
}

/// `index_of` is the position of the first occurrence, or -1 when `c` does not occur.
pub proof fn lemma_index_of(s: Seq<char>, c: char)
    ensures
        -1 <= index_of(s, c) < s.len(),
        index_of(s, c) >= 0 ==> s[index_of(s, c)] == c,
        forall|k: int| 0 <= k < s.len() && (index_of(s, c) < 0 || k < index_of(s, c)) ==> s[k] != c,
    decreases s.len(),
{
    if s.len() > 0 && s[0] != c {
        lemma_index_of(s.drop_first(), c);
        assert forall|k: int|
            0 <= k < s.len() && (index_of(s, c) < 0 || k < index_of(s, c)) implies s[k] != c by {
            if k > 0 {
                assert(s[k] == s.drop_first()[k - 1]);
            }
        }
    }
}

/// The first occurrence of `c` in `s` is at `j` when `c` is at `j` and at no earlier position.
pub proof fn lemma_index_of_at(s: Seq<char>, c: char, j: int)
    requires
        0 <= j < s.len(),
        s[j] == c,
        forall|k: int| 0 <= k < j ==> s[k] != c,
    ensures
        index_of(s, c) == j,
{
    lemma_index_of(s, c);
}

/// `c` does not occur in `s`.
pub proof fn lemma_index_of_none(s: Seq<char>, c: char)
    requires
        forall|k: int| 0 <= k < s.len() ==> s[k] != c,
    ensures
        index_of(s, c) == -1,
{
    lemma_index_of(s, c);
}

// ---------------------------------------------------------------------------
// Splitting at a character (std's `str::split` with a `char` pattern)
// ---------------------------------------------------------------------------

/// The pieces of `s` between the occurrences of `c`; always at least one piece.
pub open spec fn split_char(s: Seq<char>, c: char) -> Seq<Seq<char>>
    decreases s.len(),
{
    let i = index_of(s, c);
    if i < 0 {
        seq![s]
    } else {
        proof {
            lemma_index_of(s, c);
        }
        seq![s.take(i)] + split_char(s.skip(i + 1), c)
    }
}

/// Splits `s` at every occurrence of `c`.
pub fn split_at_char(s: &[char], c: char) -> (out: Vec<Vec<char>>)
    ensures
        out@.map_values(|v: Vec<char>| v@) == split_char(s@, c),
{
    let mut out: Vec<Vec<char>> = Vec::new();
    let mut cur: Vec<char> = Vec::new();
    let mut start: usize = 0;
    let mut j: usize = 0;
    proof {
        assert(s@.skip(0) == s@);
        assert(out@.map_values(|v: Vec<char>| v@) + split_char(s@, c) == split_char(s@, c));
    }
    while j < s.len()
        invariant
            start <= j <= s.len(),
            cur@ == s@.subrange(start as int, j as int),
            forall|k: int| start <= k < j ==> s@[k] != c,
            out@.map_values(|v: Vec<char>| v@) + split_char(s@.skip(start as int), c) == split_char(s@, c),
        decreases s.len() - j,
    {
        if s[j] == c {
            proof {
                let rest = s@.skip(start as int);
                lemma_index_of_at(rest, c, (j - start) as int);
                assert(rest.take((j - start) as int) == cur@);
                assert(rest.skip((j - start) + 1) == s@.skip(j + 1));
                assert(out@.push(cur).map_values(|v: Vec<char>| v@) == out@.map_values(|v: Vec<char>| v@).push(cur@));
            }
            out.push(cur);
            cur = Vec::new();
            start = j + 1;
        } else {
            cur.push(s[j]);
        }
        j = j + 1;
    }
    proof {
        let rest = s@.skip(start as int);
        assert forall|k: int| 0 <= k < rest.len() implies rest[k] != c by {
            assert(rest[k] == s@[start + k]);
        }
        lemma_index_of_none(rest, c);
        assert(rest == cur@);
        assert(out@.push(cur).map_values(|v: Vec<char>| v@) == out@.map_values(|v: Vec<char>| v@).push(cur@));
    }
    out.push(cur);
    out
}


/// Splits `s` at the first `n - 1` occurrences of `c` (std's `str::splitn`).
pub open spec fn splitn_char(s: Seq<char>, c: char, n: nat) -> Seq<Seq<char>>
    decreases n,
{
    let i = index_of(s, c);
    if n <= 1 || i < 0 {
        seq![s]
    } else {
        seq![s.take(i)] + splitn_char(s.skip(i + 1), c, (n - 1) as nat)
    }
}

/// Splits `s` into at most `n` pieces at the first occurrences of `c`.
pub fn splitn_at_char(s: &[char], c: char, n: usize) -> (out: Vec<Vec<char>>)
    requires
        n >= 1,
    ensures
        out@.map_values(|v: Vec<char>| v@) == splitn_char(s@, c, n as nat),
{
    let mut out: Vec<Vec<char>> = Vec::new();
    let mut cur: Vec<char> = Vec::new();
    let mut start: usize = 0;
    let mut j: usize = 0;
    let mut left: usize = n;
    proof {
        assert(s@.skip(0) == s@);
        assert(out@.map_values(|v: Vec<char>| v@) + splitn_char(s@, c, n as nat) == splitn_char(s@, c, n as nat));
    }
    while j < s.len()
        invariant
            start <= j <= s.len(),
            1 <= left <= n,
            cur@ == s@.subrange(start as int, j as int),
            left > 1 ==> forall|k: int| start <= k < j ==> s@[k] != c,
            out@.map_values(|v: Vec<char>| v@) + splitn_char(s@.skip(start as int), c, left as nat)
                == splitn_char(s@, c, n as nat),
        decreases s.len() - j,
    {
        if s[j] == c && left > 1 {
            proof {
                let rest = s@.skip(start as int);
                lemma_index_of_at(rest, c, (j - start) as int);
                assert(rest.take((j - start) as int) == cur@);
                assert(rest.skip((j - start) + 1) == s@.skip(j + 1));
                assert(out@.push(cur).map_values(|v: Vec<char>| v@) == out@.map_values(|v: Vec<char>| v@).push(cur@));
            }
            out.push(cur);
            cur = Vec::new();
            start = j + 1;
            left = left - 1;
        } else {
            cur.push(s[j]);
        }
        j = j + 1;
    }
    proof {
        let rest = s@.skip(start as int);
        if left > 1 {
            assert forall|k: int| 0 <= k < rest.len() implies rest[k] != c by {
                assert(rest[k] == s@[start + k]);
            }
            lemma_index_of_none(rest, c);
        }
        assert(rest == cur@);
        assert(out@.push(cur).map_values(|v: Vec<char>| v@) == out@.map_values(|v: Vec<char>| v@).push(cur@));
    }
    out.push(cur);
    out
}

// ---------------------------------------------------------------------------
// Lines (std's `str::lines`)
// ---------------------------------------------------------------------------

/// Removes one trailing carriage return.
pub open spec fn strip_cr(l: Seq<char>) -> Seq<char> {
    if l.len() > 0 && l.last() == '\r' {
        l.drop_last()
    } else {
        l
    }
}

/// The lines of `s`: the pieces between newlines, a `\r` before a newline removed,
/// and no empty last line when `s` is empty or ends with a newline.
pub open spec fn lines_of(s: Seq<char>) -> Seq<Seq<char>> {
    if s.len() == 0 {
        seq![]
    } else {
        let p = split_char(s, '\n');
        let init = p.drop_last().map_values(|l: Seq<char>| strip_cr(l));
        if p.last().len() == 0 {
            init
        } else {
            init.push(p.last())
        }
    }
}

/// `split_char` gives at least one piece.
pub proof fn lemma_split_char_nonempty(s: Seq<char>, c: char)
    ensures
        split_char(s, c).len() >= 1,
{
    reveal_with_fuel(split_char, 1);
}

/// Removes one trailing `\r` from `l`.
pub fn strip_cr_exec(l: Vec<char>) -> (out: Vec<char>)
    ensures
        out@ == strip_cr(l@),
{
    let mut l = l;
    let n = l.len();
    if n > 0 && l[n - 1] == '\r' {
        l.pop();
    }
    l
}

/// The lines of `s`.
pub fn split_lines(s: &[char]) -> (out: Vec<Vec<char>>)
    ensures
        out@.map_values(|v: Vec<char>| v@) == lines_of(s@),
{
    let mut out: Vec<Vec<char>> = Vec::new();
    if s.len() == 0 {
        proof {
            assert(out@.map_values(|v: Vec<char>| v@) =~= lines_of(s@));
        }
        return out;
    }
    let mut parts = split_at_char(s, '\n');
    let ghost p = split_char(s@, '\n');
    proof {
        lemma_split_char_nonempty(s@, '\n');
    }
    let last = parts.pop().unwrap();
    let ghost init = p.drop_last().map_values(|l: Seq<char>| strip_cr(l));
    proof {
        assert(parts@.map_values(|v: Vec<char>| v@) =~= p.drop_last());
        assert(last@ == p.last());
    }
    let mut i: usize = 0;
    while i < parts.len()
        invariant
            i <= parts.len(),
            parts@.map_values(|v: Vec<char>| v@) == p.drop_last(),
            init == p.drop_last().map_values(|l: Seq<char>| strip_cr(l)),
            out@.map_values(|v: Vec<char>| v@) == init.take(i as int),
        decreases parts.len() - i,
    {
        let l = strip_cr_exec(parts[i].clone());
        proof {
            assert(parts@[i as int]@ == p.drop_last()[i as int]);
            assert(init.take(i + 1) == init.take(i as int).push(l@));
            assert(out@.push(l).map_values(|v: Vec<char>| v@) == out@.map_values(|v: Vec<char>| v@).push(l@));
        }
        out.push(l);
        i = i + 1;
    }
    proof {
        assert(init.take(parts@.len() as int) == init);
    }
    if last.len() > 0 {
        proof {
            assert(out@.push(last).map_values(|v: Vec<char>| v@) == out@.map_values(|v: Vec<char>| v@).push(last@));
        }
        out.push(last);
    }
    out
}


// ---------------------------------------------------------------------------
// Whitespace and trimming
// ---------------------------------------------------------------------------

/// Unicode `White_Space` characters (std's `char::is_whitespace`).
pub open spec fn is_ws(c: char) -> bool {
    ||| ('\u{9}' <= c && c <= '\u{d}')
    ||| c == ' '
    ||| c == '\u{85}'
    ||| c == '\u{a0}'
    ||| c == '\u{1680}'
    ||| ('\u{2000}' <= c && c <= '\u{200a}')
    ||| c == '\u{2028}'
    ||| c == '\u{2029}'
    ||| c == '\u{202f}'
    ||| c == '\u{205f}'
    ||| c == '\u{3000}'
}

/// Whether `c` is a whitespace character.
pub fn is_whitespace(c: char) -> (b: bool)
    ensures
        b == is_ws(c),
{
    ('\u{9}' <= c && c <= '\u{d}') || c == ' ' || c == '\u{85}' || c == '\u{a0}' || c
        == '\u{1680}' || ('\u{2000}' <= c && c <= '\u{200a}') || c == '\u{2028}' || c
        == '\u{2029}' || c == '\u{202f}' || c == '\u{205f}' || c == '\u{3000}'
}

/// `s` without its leading whitespace.
pub open spec fn trim_start(s: Seq<char>) -> Seq<char>
    decreases s.len(),
{
    if s.len() > 0 && is_ws(s[0]) {
        trim_start(s.drop_first())
    } else {
        s
    }
}

/// `s` without its trailing whitespace.
pub open spec fn trim_end(s: Seq<char>) -> Seq<char>
    decreases s.len(),
{
    if s.len() > 0 && is_ws(s.last()) {
        trim_end(s.drop_last())
    } else {
        s
    }
}

/// `s` without leading and trailing whitespace.
pub open spec fn trim(s: Seq<char>) -> Seq<char> {
    trim_end(trim_start(s))
}

/// Dropping `i` leading whitespace characters that are followed by a non-whitespace
/// character (or the end) is `trim_start`.
pub proof fn lemma_trim_start_at(s: Seq<char>, i: int)
    requires
        0 <= i <= s.len(),
        forall|k: int| 0 <= k < i ==> is_ws(s[k]),
        i < s.len() ==> !is_ws(s[i]),
    ensures
        trim_start(s) == s.skip(i),
    decreases i,
{
    if i == 0 {
        assert(s.skip(0) == s);
    } else {
        let t = s.drop_first();
        assert forall|k: int| 0 <= k < i - 1 implies is_ws(t[k]) by {
            assert(t[k] == s[k + 1]);
        }
        lemma_trim_start_at(t, i - 1);
        assert(t.skip(i - 1) == s.skip(i));
    }
}

/// Keeping the first `j` characters, when the rest is whitespace and the `j`-th from
/// the start is not (or `j` is 0), is `trim_end`.
pub proof fn lemma_trim_end_at(s: Seq<char>, j: int)
    requires
        0 <= j <= s.len(),
        forall|k: int| j <= k < s.len() ==> is_ws(s[k]),
        j > 0 ==> !is_ws(s[j - 1]),
    ensures
        trim_end(s) == s.take(j),
    decreases s.len() - j,
{
    if j == s.len() {
        assert(s.take(j) == s);
    } else {
        let t = s.drop_last();
        lemma_trim_end_at(t, j);
        assert(t.take(j) == s.take(j));
    }
}

/// Number of leading whitespace characters of `s`.
fn leading_ws(s: &[char]) -> (i: usize)
    ensures
        i <= s.len(),
        forall|k: int| 0 <= k < i ==> is_ws(s@[k]),
        i < s.len() ==> !is_ws(s@[i as int]),
{
    let mut i: usize = 0;
    while i < s.len() && is_whitespace(s[i])
        invariant
            i <= s.len(),
            forall|k: int| 0 <= k < i ==> is_ws(s@[k]),
        decreases s.len() - i,
    {
        i = i + 1;
    }
    i
}

/// Length of `s` without its trailing whitespace.
fn end_without_ws(s: &[char]) -> (j: usize)
    ensures
        j <= s.len(),
        forall|k: int| j <= k < s.len() ==> is_ws(s@[k]),
        j > 0 ==> !is_ws(s@[j - 1]),
{
    let mut j: usize = s.len();
    while j > 0 && is_whitespace(s[j - 1])
        invariant
            j <= s.len(),
            forall|k: int| j <= k < s.len() ==> is_ws(s@[k]),
        decreases j,
    {
        j = j - 1;
    }
    j
}

/// The characters of `s` from `from` up to `to`.
pub fn slice_vec(s: &[char], from: usize, to: usize) -> (out: Vec<char>)
    requires
        from <= to <= s.len(),
    ensures
        out@ == s@.subrange(from as int, to as int),
{
    let mut out: Vec<char> = Vec::new();
    let mut i: usize = from;
    while i < to
        invariant
            from <= i <= to <= s.len(),
            out@ == s@.subrange(from as int, i as int),
        decreases to - i,
    {
        out.push(s[i]);
        proof {
            assert(s@.subrange(from as int, i + 1) == s@.subrange(from as int, i as int).push(s@[i as int]));
        }
        i = i + 1;
    }
    out
}

/// `trim_end` keeps a prefix of `s`.
pub proof fn lemma_trim_end_prefix(s: Seq<char>)
    ensures
        trim_end(s).len() <= s.len(),
        forall|k: int| 0 <= k < trim_end(s).len() ==> trim_end(s)[k] == s[k],
    decreases s.len(),
{
    if s.len() > 0 && is_ws(s.last()) {
        lemma_trim_end_prefix(s.drop_last());
        assert forall|k: int| 0 <= k < trim_end(s).len() implies trim_end(s)[k] == s[k] by {
            assert(s.drop_last()[k] == s[k]);
        }
    }
}

/// `s` without leading whitespace.
pub fn trim_start_exec(s: &[char]) -> (out: Vec<char>)
    ensures
        out@ == trim_start(s@),
{
    let i = leading_ws(s);
    proof {
        lemma_trim_start_at(s@, i as int);
    }
    slice_vec(s, i, s.len())
}

/// `s` without trailing whitespace.
pub fn trim_end_exec(s: &[char]) -> (out: Vec<char>)
    ensures
        out@ == trim_end(s@),
{
    let j = end_without_ws(s);
    proof {
        lemma_trim_end_at(s@, j as int);
    }
    slice_vec(s, 0, j)
}

/// `s` without leading and trailing whitespace.
pub fn trim_exec(s: &[char]) -> (out: Vec<char>)
    ensures
        out@ == trim(s@),
{
    let t = trim_start_exec(s);
    trim_end_exec(&t)
}

// ---------------------------------------------------------------------------
// Prefixes, suffixes and substrings
// ---------------------------------------------------------------------------

/// Whether `s` begins with `p`.
pub open spec fn has_prefix(s: Seq<char>, p: Seq<char>) -> bool {
    p.len() <= s.len() && s.take(p.len() as int) == p
}

/// Whether `s` ends with `p`.
pub open spec fn has_suffix(s: Seq<char>, p: Seq<char>) -> bool {
    p.len() <= s.len() && s.skip(s.len() - p.len()) == p
}

/// Whether `s` holds `t` at position `i`.
pub open spec fn occurs_at(s: Seq<char>, t: Seq<char>, i: int) -> bool {
    0 <= i && i + t.len() <= s.len() && s.subrange(i, i + t.len()) == t
}

/// Whether `t` occurs somewhere in `s`.
pub open spec fn contains_seq(s: Seq<char>, t: Seq<char>) -> bool {
    exists|i: int| occurs_at(s, t, i)
}

/// Whether `s` holds `t` at position `i`.
pub fn matches_at(s: &[char], t: &[char], i: usize) -> (b: bool)
    ensures
        b == occurs_at(s@, t@, i as int),
{
    if i > s.len() || t.len() > s.len() - i {
        return false;
    }
    let mut k: usize = 0;
    while k < t.len()
        invariant
            i + t.len() <= s.len(),
            k <= t.len(),
            forall|m: int| 0 <= m < k ==> s@[i + m] == t@[m],
        decreases t.len() - k,
    {
        if s[i + k] != t[k] {
            proof {
                assert(s@.subrange(i as int, i + t.len())[k as int] != t@[k as int]);
            }
            return false;
        }
        k = k + 1;
    }
    proof {
        assert(s@.subrange(i as int, i + t.len()) =~= t@);
    }
    true
}

/// Whether `s` begins with `p`.
pub fn starts_with(s: &[char], p: &[char]) -> (b: bool)
    ensures
        b == has_prefix(s@, p@),
{
    let b = matches_at(s, p, 0);
    proof {
        if p@.len() <= s@.len() {
            assert(s@.subrange(0, p@.len() as int) == s@.take(p@.len() as int));
        }
    }
    b
}

/// Whether `s` ends with `p`.
pub fn ends_with(s: &[char], p: &[char]) -> (b: bool)
    ensures
        b == has_suffix(s@, p@),
{
    if p.len() > s.len() {
        return false;
    }
    let b = matches_at(s, p, s.len() - p.len());
    proof {
        assert(s@.subrange(s@.len() - p@.len(), s@.len() as int) == s@.skip(s@.len() - p@.len()));
    }
    b
}

/// Whether `t` occurs in `s`.
pub fn contains_exec(s: &[char], t: &[char]) -> (b: bool)
    ensures
        b == contains_seq(s@, t@),
{
    let mut i: usize = 0;
    while i < s.len()
        invariant
            i <= s.len(),
            forall|m: int| 0 <= m < i ==> !occurs_at(s@, t@, m),
        decreases s.len() - i,
    {
        if matches_at(s, t, i) {
            return true;
        }
        i = i + 1;
    }
    if matches_at(s, t, i) {
        return true;
    }
    proof {
        assert forall|m: int| !occurs_at(s@, t@, m) by {
            if 0 <= m && m <= i {
            }
        }
    }
    false
}

/// `s` with the prefix `p` removed, when `s` begins with `p` (std's `str::strip_prefix`).
pub fn strip_prefix(s: &[char], p: &[char]) -> (out: Option<Vec<char>>)
    ensures
        has_prefix(s@, p@) <==> out.is_some(),
        out matches Some(r) ==> r@ == s@.skip(p@.len() as int),
{
    if starts_with(s, p) {
        Some(slice_vec(s, p.len(), s.len()))
    } else {
        None
    }
}

/// Equality of two character sequences.
pub fn chars_eq(a: &[char], b: &[char]) -> (r: bool)
    ensures
        r == (a@ == b@),
{
    if a.len() != b.len() {
        return false;
    }
    let r = matches_at(a, b, 0);
    proof {
        assert(a@.subrange(0, a@.len() as int) == a@);
    }
    r
}


// ---------------------------------------------------------------------------
// Words (std's `str::split_whitespace`)
// ---------------------------------------------------------------------------

/// Index of the first whitespace character of `s`, or -1 when there is none.
pub open spec fn index_ws(s: Seq<char>) -> int
    decreases s.len(),
{
    if s.len() == 0 {
        -1
    } else if is_ws(s[0]) {
        0
    } else {
        let r = index_ws(s.drop_first());
        if r < 0 {
            -1
        } else {
            r + 1
        }
    }
}

/// `index_ws` is the position of the first whitespace character, or -1.
pub proof fn lemma_index_ws(s: Seq<char>)
    ensures
        -1 <= index_ws(s) < s.len(),
        index_ws(s) >= 0 ==> is_ws(s[index_ws(s)]),
        forall|k: int| 0 <= k < s.len() && (index_ws(s) < 0 || k < index_ws(s)) ==> !is_ws(s[k]),
    decreases s.len(),
{
    if s.len() > 0 && !is_ws(s[0]) {
        lemma_index_ws(s.drop_first());
        assert forall|k: int| 0 <= k < s.len() && (index_ws(s) < 0 || k < index_ws(s)) implies !is_ws(
            s[k],
        ) by {
            if k > 0 {
                assert(s[k] == s.drop_first()[k - 1]);
            }
        }
    }
}

/// `trim_start` never lengthens `s`, and what it keeps is a suffix of `s`.
pub proof fn lemma_trim_start_suffix(s: Seq<char>)
    ensures
        trim_start(s).len() <= s.len(),
        trim_start(s) == s.skip(s.len() - trim_start(s).len()),
        trim_start(s).len() > 0 ==> !is_ws(trim_start(s)[0]),
    decreases s.len(),
{
    if s.len() > 0 && is_ws(s[0]) {
        lemma_trim_start_suffix(s.drop_first());
        assert(s.drop_first().skip(s.drop_first().len() - trim_start(s).len()) == s.skip(
            s.len() - trim_start(s).len(),
        ));
    } else {
        assert(s.skip(0) == s);
    }
}

/// The maximal runs of non-whitespace characters of `s`, in order.
pub open spec fn words(s: Seq<char>) -> Seq<Seq<char>>
    decreases s.len(),
{
    let t = trim_start(s);
    if t.len() == 0 {
        seq![]
    } else {
        let k = index_ws(t);
        if k < 0 {
            seq![t]
        } else {
            proof {
                lemma_trim_start_suffix(s);
                lemma_index_ws(t);
            }
            seq![t.take(k)] + words(t.skip(k))
        }
    }
}

/// A leading whitespace character does not change the words.
pub proof fn lemma_words_skip_ws(s: Seq<char>)
    requires
        s.len() > 0,
        is_ws(s[0]),
    ensures
        words(s) == words(s.drop_first()),
{
}

/// A word followed by whitespace or the end.
pub proof fn lemma_words_word(w: Seq<char>, rest: Seq<char>)
    requires
        w.len() > 0,
        forall|k: int| 0 <= k < w.len() ==> !is_ws(w[k]),
        rest.len() > 0 ==> is_ws(rest[0]),
    ensures
        words(w + rest) == seq![w] + words(rest),
{
    let s = w + rest;
    assert(trim_start(s) == s);
    lemma_index_ws(s);
    if rest.len() > 0 {
        assert(s[w.len() as int] == rest[0]);
        assert(forall|k: int| 0 <= k < w.len() ==> s[k] == w[k]);
        assert(index_ws(s) == w.len());
        assert(s.take(w.len() as int) == w);
        assert(s.skip(w.len() as int) == rest);
    } else {
        assert(s == w);
        assert(forall|k: int| 0 <= k < s.len() ==> s[k] == w[k]);
        assert(index_ws(s) < 0);
        assert(trim_start(rest).len() == 0);
    }
}

/// The words of `s`.
pub fn split_words(s: &[char]) -> (out: Vec<Vec<char>>)
    ensures
        out@.map_values(|v: Vec<char>| v@) == words(s@),
{
    let mut out: Vec<Vec<char>> = Vec::new();
    let mut cur: Vec<char> = Vec::new();
    let mut j: usize = 0;
    proof {
        assert(s@.skip(0) == s@);
        assert(out@.map_values(|v: Vec<char>| v@) + words(s@) == words(s@));
    }
    while j < s.len()
        invariant
            j <= s.len(),
            forall|k: int| 0 <= k < cur@.len() ==> !is_ws(cur@[k]),
            out@.map_values(|v: Vec<char>| v@) + words(cur@ + s@.skip(j as int)) == words(s@),
        decreases s.len() - j,
    {
        let c = s[j];
        proof {
            assert(s@.skip(j as int) == seq![c] + s@.skip(j + 1));
        }
        if is_whitespace(c) {
            if cur.len() > 0 {
                proof {
                    lemma_words_word(cur@, s@.skip(j as int));
                    assert(out@.push(cur).map_values(|v: Vec<char>| v@) == out@.map_values(
                        |v: Vec<char>| v@,
                    ).push(cur@));
                    lemma_words_skip_ws(s@.skip(j as int));
                    assert(s@.skip(j as int).drop_first() == s@.skip(j + 1));
                    assert(Seq::<char>::empty() + s@.skip(j + 1) == s@.skip(j + 1));
                }
                out.push(cur);
                cur = Vec::new();
            } else {
                proof {
                    assert(cur@ + s@.skip(j as int) == s@.skip(j as int));
                    lemma_words_skip_ws(s@.skip(j as int));
                    assert(s@.skip(j as int).drop_first() == s@.skip(j + 1));
                    assert(cur@ + s@.skip(j + 1) == s@.skip(j + 1));
                }
            }
        } else {
            proof {
                assert(cur@ + s@.skip(j as int) == cur@.push(c) + s@.skip(j + 1));
            }
            cur.push(c);
        }
        j = j + 1;
    }
    proof {
        assert(s@.skip(j as int) == Seq::<char>::empty());
        assert(cur@ + s@.skip(j as int) == cur@);
    }
    if cur.len() > 0 {
        proof {
            lemma_words_word(cur@, Seq::<char>::empty());
            assert(cur@ + Seq::<char>::empty() == cur@);
            assert(trim_start(Seq::<char>::empty()).len() == 0);
            assert(out@.push(cur).map_values(|v: Vec<char>| v@) == out@.map_values(|v: Vec<char>| v@).push(
                cur@,
            ));
        }
        out.push(cur);
    } else {
        proof {
            assert(trim_start(cur@).len() == 0);
            assert(out@.map_values(|v: Vec<char>| v@) + seq![] == out@.map_values(|v: Vec<char>| v@));
        }
    }
    out
}

// ---------------------------------------------------------------------------
// Decimal numbers (std's `FromStr` for integers)
// ---------------------------------------------------------------------------

/// Whether `c` is an ASCII decimal digit.
pub open spec fn is_digit(c: char) -> bool {
    '0' <= c && c <= '9'
}

/// Whether `d` is non-empty and made of decimal digits only.
pub open spec fn all_digits(d: Seq<char>) -> bool {
    d.len() > 0 && forall|i: int| 0 <= i < d.len() ==> is_digit(d[i])
}

/// The value of the decimal digits `d`.
pub open spec fn digits_val(d: Seq<char>) -> nat
    decreases d.len(),
{
    if d.len() == 0 {
        0
    } else {
        digits_val(d.drop_last()) * 10 + ((d.last() as nat) - ('0' as nat)) as nat
    }
}

/// The value of an unsigned decimal number with an optional leading `+`.
pub open spec fn parse_nat(s: Seq<char>) -> Option<nat> {
    let d = if s.len() > 0 && s[0] == '+' {
        s.drop_first()
    } else {
        s
    };
    if all_digits(d) {
        Some(digits_val(d))
    } else {
        None
    }
}

/// The value of a signed decimal number with an optional leading `+` or `-`.
pub open spec fn parse_int(s: Seq<char>) -> Option<int> {
    if s.len() > 0 && s[0] == '-' {
        let d = s.drop_first();
        if all_digits(d) {
            Some(-digits_val(d))
        } else {
            None
        }
    } else {
        match parse_nat(s) {
            Some(v) => Some(v as int),
            None => None,
        }
    }
}

/// A longer run of digits is worth at least as much as its prefix.
pub proof fn lemma_digits_val_prefix(d: Seq<char>, k: int)
    requires
        0 <= k <= d.len(),
        forall|i: int| 0 <= i < d.len() ==> is_digit(d[i]),
    ensures
        digits_val(d.take(k)) <= digits_val(d),
    decreases d.len() - k,
{
    if k < d.len() {
        lemma_digits_val_prefix(d, k + 1);
        assert(d.take(k + 1).drop_last() == d.take(k));
        assert(d.take(k + 1).last() == d[k]);
    } else {
        assert(d.take(k) == d);
    }
}

/// The value of the digits `d[from..]`, when it is at most `limit`.
fn digits_value_upto(d: &[char], from: usize, limit: u64) -> (r: Option<u64>)
    requires
        from <= d.len(),
        limit >= 9,
    ensures
        ({
            let t = d@.skip(from as int);
            match r {
                Some(v) => all_digits(t) && v == digits_val(t) && v <= limit,
                None => !all_digits(t) || digits_val(t) > limit,
            }
        }),
{
    let ghost t = d@.skip(from as int);
    if from == d.len() {
        return None;
    }
    let mut v: u64 = 0;
    let mut i: usize = from;
    proof {
        assert(t.take(0) == Seq::<char>::empty());
    }
    while i < d.len()
        invariant
            from <= i <= d.len(),
            t == d@.skip(from as int),
            forall|k: int| 0 <= k < i - from ==> is_digit(t[k]),
            v == digits_val(t.take(i - from)),
            v <= limit,
            limit >= 9,
        decreases d.len() - i,
    {
        let c = d[i];
        proof {
            assert(t[i - from] == c);
        }
        if !('0' <= c && c <= '9') {
            return None;
        }
        let cu = c as u32;
        proof {
            assert(48 <= cu <= 57);
        }
        let dv = (cu - 48) as u64;
        proof {
            assert(t.take(i - from + 1).drop_last() == t.take(i - from));
            assert(t.take(i - from + 1).last() == c);
        }
        if v > (limit - dv) / 10 {
            proof {
                assert(digits_val(t.take(i - from + 1)) == v * 10 + dv);
                assert(v * 10 + dv > limit) by (nonlinear_arith)
                    requires
                        v > (limit - dv) / 10,
                        dv <= 9,
                        dv <= limit,
                ;
                if all_digits(t) {
                    lemma_digits_val_prefix(t, i - from + 1);
                }
            }
            return None;
        }
        proof {
            assert(v * 10 + dv <= limit) by (nonlinear_arith)
                requires
                    v <= (limit - dv) / 10,
                    dv <= limit,
            ;
        }
        v = v * 10 + dv;
        i = i + 1;
    }
    proof {
        assert(t.take(i - from) == t);
    }
    Some(v)
}

/// Parses an unsigned decimal number that fits in a `usize` (std's `str::parse::<usize>`).
pub fn parse_usize(s: &[char]) -> (r: Option<usize>)
    ensures
        r == (match parse_nat(s@) {
            Some(v) => if v <= usize::MAX {
                Some(v as usize)
            } else {
                None
            },
            None => None,
        }),
{
    let from: usize = if s.len() > 0 && s[0] == '+' {
        1
    } else {
        0
    };
    proof {
        if from == 1 {
            assert(s@.skip(1) == s@.drop_first());
        } else {
            assert(s@.skip(0) == s@);
        }
    }
    let limit: u64 = if usize::MAX as u64 >= u64::MAX {
        u64::MAX
    } else {
        usize::MAX as u64
    };
    match digits_value_upto(s, from, limit) {
        Some(v) => Some(v as usize),
        None => None,
    }
}

/// Parses a signed decimal number that fits in an `i64` (std's `str::parse::<i64>`).
pub fn parse_i64(s: &[char]) -> (r: Option<i64>)
    ensures
        r == (match parse_int(s@) {
            Some(v) => if i64::MIN <= v <= i64::MAX {
                Some(v as i64)
            } else {
                None
            },
            None => None,
        }),
{
    if s.len() > 0 && s[0] == '-' {
        proof {
            assert(s@.skip(1) == s@.drop_first());
        }
        match digits_value_upto(s, 1, 0x8000_0000_0000_0000u64) {
            Some(v) => {
                if v == 0x8000_0000_0000_0000u64 {
                    Some(i64::MIN)
                } else {
                    Some(-(v as i64))
                }
            },
            None => None,
        }
    } else {
        let from: usize = if s.len() > 0 && s[0] == '+' {
            1
        } else {
            0
        };
        proof {
            if from == 1 {
                assert(s@.skip(1) == s@.drop_first());
            } else {
                assert(s@.skip(0) == s@);
            }
        }
        match digits_value_upto(s, from, 0x7fff_ffff_ffff_ffffu64) {
            Some(v) => Some(v as i64),
            None => None,
        }
    }
}


// ---------------------------------------------------------------------------
// UTF-8 lengths (byte positions in std's `str`)
// ---------------------------------------------------------------------------

/// Number of bytes of `c` in UTF-8.
pub open spec fn utf8_len(c: char) -> nat {
    if (c as u32) < 0x80 {
        1
    } else if (c as u32) < 0x800 {
        2
    } else if (c as u32) < 0x10000 {
        3
    } else {
        4
    }
}

/// Number of bytes of `s` in UTF-8 (std's `str::len`).
pub open spec fn byte_len(s: Seq<char>) -> nat
    decreases s.len(),
{
    if s.len() == 0 {
        0
    } else {
        byte_len(s.drop_last()) + utf8_len(s.last())
    }
}

/// Number of bytes of `c` in UTF-8.
pub fn char_utf8_len(c: char) -> (n: usize)
    ensures
        n == utf8_len(c),
{
    let u = c as u32;
    if u < 0x80 {
        1
    } else if u < 0x800 {
        2
    } else if u < 0x10000 {
        3
    } else {
        4
    }
}

/// Number of bytes of the first `k` characters.
pub open spec fn prefix_bytes(s: Seq<char>, k: int) -> nat {
    byte_len(s.take(k))
}

/// The byte length grows with every character.
pub proof fn lemma_byte_len_push(s: Seq<char>, c: char)
    ensures
        byte_len(s.push(c)) == byte_len(s) + utf8_len(c),
{
    assert(s.push(c).drop_last() == s);
}

/// Byte length of a concatenation.
pub proof fn lemma_byte_len_concat(a: Seq<char>, b: Seq<char>)
    ensures
        byte_len(a + b) == byte_len(a) + byte_len(b),
    decreases b.len(),
{
    if b.len() == 0 {
        assert(a + b == a);
    } else {
        lemma_byte_len_concat(a, b.drop_last());
        assert((a + b).drop_last() == a + b.drop_last());
    }
}

/// Number of bytes of `s` in UTF-8, saturating at `usize::MAX`.
pub fn bytes_len(s: &[char]) -> (n: usize)
    ensures
        n == (if byte_len(s@) <= usize::MAX { byte_len(s@) } else { usize::MAX as nat }),
{
    let mut n: usize = 0;
    let mut i: usize = 0;
    proof {
        assert(s@.take(0) == Seq::<char>::empty());
    }
    while i < s.len()
        invariant
            i <= s.len(),
            n == (if byte_len(s@.take(i as int)) <= usize::MAX { byte_len(s@.take(i as int)) } else { usize::MAX as nat }),
        decreases s.len() - i,
    {
        let k = char_utf8_len(s[i]);
        proof {
            assert(s@.take(i + 1) == s@.take(i as int).push(s@[i as int]));
            lemma_byte_len_push(s@.take(i as int), s@[i as int]);
        }
        n = if n > usize::MAX - k {
            usize::MAX
        } else {
            n + k
        };
        i = i + 1;
    }
    proof {
        assert(s@.take(s@.len() as int) == s@);
    }
    n
}

/// The number of characters that make up exactly the first `b` bytes of `s`, when
/// byte `b` lies on a character boundary.
pub fn char_index_of_byte(s: &[char], b: usize) -> (r: Option<usize>)
    ensures
        match r {
            Some(k) => k <= s@.len() && prefix_bytes(s@, k as int) == b,
            None => forall|k: int| 0 <= k <= s@.len() ==> prefix_bytes(s@, k) != b,
        },
{
    let mut n: usize = 0;
    let mut i: usize = 0;
    proof {
        assert(s@.take(0) == Seq::<char>::empty());
    }
    while i < s.len() && n < b
        invariant
            i <= s.len(),
            n <= b,
            n == prefix_bytes(s@, i as int),
            forall|k: int| 0 <= k < i ==> prefix_bytes(s@, k) < n,
        decreases s.len() - i,
    {
        let k = char_utf8_len(s[i]);
        proof {
            assert(s@.take(i + 1) == s@.take(i as int).push(s@[i as int]));
            lemma_byte_len_push(s@.take(i as int), s@[i as int]);
        }
        if k > b - n {
            proof {
                assert forall|m: int| 0 <= m <= s@.len() implies prefix_bytes(s@, m) != b by {
                    if m > i + 1 {
                        lemma_prefix_bytes_mono(s@, i + 1, m);
                    }
                }
            }
            return None;
        }
        n = n + k;
        i = i + 1;
    }
    if n == b {
        Some(i)
    } else {
        proof {
            assert forall|k: int| 0 <= k <= s@.len() implies prefix_bytes(s@, k) != b by {
                if k > i {
                    lemma_prefix_bytes_mono(s@, i as int, k);
                }
            }
        }
        None
    }
}

/// Byte counts of prefixes grow strictly with their length.
pub proof fn lemma_prefix_bytes_mono(s: Seq<char>, i: int, k: int)
    requires
        0 <= i < k <= s.len(),
    ensures
        prefix_bytes(s, i) < prefix_bytes(s, k),
    decreases k - i,
{
    assert(s.take(k).drop_last() == s.take(k - 1));
    if k - 1 > i {
        lemma_prefix_bytes_mono(s, i, k - 1);
    }
}

// ---------------------------------------------------------------------------
// Small string operations
// ---------------------------------------------------------------------------

/// A `String` holding the characters of `s`.
pub fn owned(s: &str) -> (r: String)
    ensures
        r@ == s@,
{
    String::from_str(s)
}

/// The concatenation of two strings.
pub fn cat(a: &str, b: &str) -> (r: String)
    ensures
        r@ == a@ + b@,
{
    let mut r = String::from_str(a);
    r.append(b);
    r
}

/// The concatenation of three strings.
pub fn cat3(a: &str, b: &str, c: &str) -> (r: String)
    ensures
        r@ == a@ + b@ + c@,
{
    let mut r = String::from_str(a);
    r.append(b);
    r.append(c);
    r
}

/// `s` with every `from` replaced by `to`.
pub open spec fn replace_char(s: Seq<char>, from: char, to: char) -> Seq<char> {
    s.map_values(|c: char| if c == from { to } else { c })
}

/// `s` with every `from` replaced by `to` (std's `str::replace` with single characters).
pub fn replace_char_exec(s: &[char], from: char, to: char) -> (r: Vec<char>)
    ensures
        r@ == replace_char(s@, from, to),
{
    let mut r: Vec<char> = Vec::new();
    let mut i: usize = 0;
    while i < s.len()
        invariant
            i <= s.len(),
            r@ == replace_char(s@, from, to).take(i as int),
        decreases s.len() - i,
    {
        let c = s[i];
        r.push(if c == from { to } else { c });
        proof {
            assert(r@ =~= replace_char(s@, from, to).take(i + 1));
        }
        i = i + 1;
    }
    proof {
        assert(replace_char(s@, from, to).take(s@.len() as int) == replace_char(s@, from, to));
    }
    r
}

/// `s` without leading occurrences of `c`.
pub open spec fn trim_start_char(s: Seq<char>, c: char) -> Seq<char>
    decreases s.len(),
{
    if s.len() > 0 && s[0] == c {
        trim_start_char(s.drop_first(), c)
    } else {
        s
    }
}

/// `s` without trailing occurrences of `c`.
pub open spec fn trim_end_char(s: Seq<char>, c: char) -> Seq<char>
    decreases s.len(),
{
    if s.len() > 0 && s.last() == c {
        trim_end_char(s.drop_last(), c)
    } else {
        s
    }
}

/// `s` without leading and trailing occurrences of `c` (std's `str::trim_matches`).
pub open spec fn trim_char(s: Seq<char>, c: char) -> Seq<char> {
    trim_end_char(trim_start_char(s, c), c)
}

proof fn lemma_trim_start_char_at(s: Seq<char>, c: char, i: int)
    requires
        0 <= i <= s.len(),
        forall|k: int| 0 <= k < i ==> s[k] == c,
        i < s.len() ==> s[i] != c,
    ensures
        trim_start_char(s, c) == s.skip(i),
    decreases i,
{
    if i == 0 {
        assert(s.skip(0) == s);
    } else {
        let t = s.drop_first();
        assert forall|k: int| 0 <= k < i - 1 implies t[k] == c by {
            assert(t[k] == s[k + 1]);
        }
        lemma_trim_start_char_at(t, c, i - 1);
        assert(t.skip(i - 1) == s.skip(i));
    }
}

proof fn lemma_trim_end_char_at(s: Seq<char>, c: char, j: int)
    requires
        0 <= j <= s.len(),
        forall|k: int| j <= k < s.len() ==> s[k] == c,
        j > 0 ==> s[j - 1] != c,
    ensures
        trim_end_char(s, c) == s.take(j),
    decreases s.len() - j,
{
    if j == s.len() {
        assert(s.take(j) == s);
    } else {
        let t = s.drop_last();
        lemma_trim_end_char_at(t, c, j);
        assert(t.take(j) == s.take(j));
    }
}

/// `s` without leading occurrences of `c` (std's `str::trim_start_matches`).
pub fn trim_start_char_exec(s: &[char], c: char) -> (r: Vec<char>)
    ensures
        r@ == trim_start_char(s@, c),
{
    let mut i: usize = 0;
    while i < s.len() && s[i] == c
        invariant
            i <= s.len(),
            forall|k: int| 0 <= k < i ==> s@[k] == c,
        decreases s.len() - i,
    {
        i = i + 1;
    }
    proof {
        lemma_trim_start_char_at(s@, c, i as int);
        assert(s@.subrange(i as int, s@.len() as int) == s@.skip(i as int));
    }
    slice_vec(s, i, s.len())
}

/// `s` without trailing occurrences of `c`.
pub fn trim_end_char_exec(s: &[char], c: char) -> (r: Vec<char>)
    ensures
        r@ == trim_end_char(s@, c),
{
    let mut j: usize = s.len();
    while j > 0 && s[j - 1] == c
        invariant
            j <= s.len(),
            forall|k: int| j <= k < s.len() ==> s@[k] == c,
        decreases j,
    {
        j = j - 1;
    }
    proof {
        lemma_trim_end_char_at(s@, c, j as int);
    }
    slice_vec(s, 0, j)
}

/// `s` without leading and trailing occurrences of `c`.
pub fn trim_char_exec(s: &[char], c: char) -> (r: Vec<char>)
    ensures
        r@ == trim_char(s@, c),
{
    let mut i: usize = 0;
    while i < s.len() && s[i] == c
        invariant
            i <= s.len(),
            forall|k: int| 0 <= k < i ==> s@[k] == c,
        decreases s.len() - i,
    {
        i = i + 1;
    }
    let mut j: usize = s.len();
    while j > i && s[j - 1] == c
        invariant
            i <= j <= s.len(),
            forall|k: int| j <= k < s.len() ==> s@[k] == c,
        decreases j,
    {
        j = j - 1;
    }
    proof {
        lemma_trim_start_char_at(s@, c, i as int);
        let t = s@.skip(i as int);
        assert forall|k: int| (j - i) <= k < t.len() implies t[k] == c by {
            assert(t[k] == s@[i + k]);
        }
        if j > i {
            assert(t[j - i - 1] == s@[j - 1]);
        }
        lemma_trim_end_char_at(t, c, (j - i) as int);
        assert(t.take((j - i) as int) == s@.subrange(i as int, j as int));
    }
    slice_vec(s, i, j)
}


// ---------------------------------------------------------------------------
// Splitting at a pattern (std's `str::split` with a `&str` pattern)
// ---------------------------------------------------------------------------

/// Index of the first occurrence of the non-empty `p` in `s`, or -1.
pub open spec fn find_pat(s: Seq<char>, p: Seq<char>) -> int
    decreases s.len(),
{
    if p.len() == 0 || p.len() > s.len() {
        -1
    } else if s.take(p.len() as int) == p {
        0
    } else {
        let r = find_pat(s.drop_first(), p);
        if r < 0 {
            -1
        } else {
            r + 1
        }
    }
}

/// `find_pat` is the first occurrence, or -1 when there is none.
pub proof fn lemma_find_pat(s: Seq<char>, p: Seq<char>)
    requires
        p.len() > 0,
    ensures
        find_pat(s, p) == -1 || occurs_at(s, p, find_pat(s, p)),
        forall|k: int| 0 <= k && (find_pat(s, p) < 0 || k < find_pat(s, p)) ==> !occurs_at(s, p, k),
    decreases s.len(),
{
    if p.len() > s.len() {
    } else if s.take(p.len() as int) == p {
        assert(s.subrange(0, p.len() as int) == s.take(p.len() as int));
    } else {
        lemma_find_pat(s.drop_first(), p);
        assert forall|k: int| 0 <= k && (find_pat(s, p) < 0 || k < find_pat(s, p)) implies !occurs_at(s, p, k) by {
            if k == 0 {
                assert(s.subrange(0, p.len() as int) == s.take(p.len() as int));
            } else if occurs_at(s, p, k) {
                assert(s.drop_first().subrange(k - 1, k - 1 + p.len()) == s.subrange(k, k + p.len()));
                assert(occurs_at(s.drop_first(), p, k - 1));
            }
        }
        let r = find_pat(s.drop_first(), p);
        if r >= 0 {
            assert(s.drop_first().subrange(r, r + p.len()) == s.subrange(r + 1, r + 1 + p.len()));
        }
    }
}

/// The pieces of `s` between the occurrences of the non-empty `p`.
pub open spec fn split_pat(s: Seq<char>, p: Seq<char>) -> Seq<Seq<char>>
    decreases s.len(),
{
    let i = find_pat(s, p);
    if p.len() == 0 || i < 0 {
        seq![s]
    } else {
        proof {
            lemma_find_pat(s, p);
        }
        seq![s.take(i)] + split_pat(s.skip(i + p.len()), p)
    }
}

/// `split_pat` gives at least one piece.
pub proof fn lemma_split_pat_nonempty(s: Seq<char>, p: Seq<char>)
    ensures
        split_pat(s, p).len() >= 1,
{
    reveal_with_fuel(split_pat, 1);
}

/// Splits `s` at every occurrence of the non-empty `p`.
pub fn split_at_pat(s: &[char], p: &[char]) -> (out: Vec<Vec<char>>)
    requires
        p@.len() > 0,
    ensures
        out@.map_values(|v: Vec<char>| v@) == split_pat(s@, p@),
{
    let mut out: Vec<Vec<char>> = Vec::new();
    let mut start: usize = 0;
    let mut j: usize = 0;
    proof {
        assert(s@.skip(0) == s@);
        assert(out@.map_values(|v: Vec<char>| v@) + split_pat(s@, p@) == split_pat(s@, p@));
    }
    while j < s.len()
        invariant
            start <= j <= s.len(),
            p@.len() > 0,
            forall|k: int| start <= k < j ==> !occurs_at(s@, p@, k),
            out@.map_values(|v: Vec<char>| v@) + split_pat(s@.skip(start as int), p@) == split_pat(s@, p@),
        decreases s.len() - j,
    {
        if matches_at(s, p, j) {
            let piece = slice_vec(s, start, j);
            proof {
                let rest = s@.skip(start as int);
                let m = (j - start) as int;
                assert forall|k: int| 0 <= k < m implies !occurs_at(rest, p@, k) by {
                    if occurs_at(rest, p@, k) {
                        assert(rest.subrange(k, k + p@.len()) =~= s@.subrange(start + k, start + k + p@.len()));
                        assert(occurs_at(s@, p@, start + k));
                        assert(start <= start + k < j);
                    }
                }
                assert(rest.subrange(m, m + p@.len()) == s@.subrange(j as int, j + p@.len()));
                lemma_find_pat(rest, p@);
                if find_pat(rest, p@) < 0 || find_pat(rest, p@) > m {
                    assert(!occurs_at(rest, p@, m));
                }
                if 0 <= find_pat(rest, p@) < m {
                    assert(occurs_at(rest, p@, find_pat(rest, p@)));
                }
                assert(find_pat(rest, p@) == m);
                assert(rest.take(m) == piece@);
                assert(rest.skip(m + p@.len()) == s@.skip(j + p@.len()));
                assert(out@.push(piece).map_values(|v: Vec<char>| v@) == out@.map_values(|v: Vec<char>| v@).push(piece@));
            }
            out.push(piece);
            start = j + p.len();
            j = start;
        } else {
            j = j + 1;
        }
    }
    let piece = slice_vec(s, start, s.len());
    proof {
        let rest = s@.skip(start as int);
        lemma_find_pat(rest, p@);
        if find_pat(rest, p@) >= 0 {
            let m = find_pat(rest, p@);
            assert(rest.subrange(m, m + p@.len()) == s@.subrange(start + m, start + m + p@.len()));
            assert(occurs_at(s@, p@, start + m));
        }
        assert(rest == piece@);
        assert(out@.push(piece).map_values(|v: Vec<char>| v@) == out@.map_values(|v: Vec<char>| v@).push(piece@));
    }
    out.push(piece);
    out
}

// ---------------------------------------------------------------------------
// Decimal formatting (std's `Display` for unsigned integers)
// ---------------------------------------------------------------------------

/// The digit character of `d` (0 to 9).
pub open spec fn digit_char(d: nat) -> char {
    ((d + 48) as u32) as char
}

/// The decimal representation of `n`, without leading zeros.
pub open spec fn decimal(n: nat) -> Seq<char>
    decreases n,
{
    if n < 10 {
        seq![digit_char(n)]
    } else {
        decimal(n / 10).push(digit_char(n % 10))
    }
}

/// The decimal representation of `n`, left-padded with zeros to `width` characters.
pub open spec fn decimal_padded(n: nat, width: nat) -> Seq<char> {
    let d = decimal(n);
    if d.len() >= width {
        d
    } else {
        Seq::new((width - d.len()) as nat, |i: int| '0') + d
    }
}

/// The character of digit `d`.
fn digit_to_char(d: u64) -> (c: char)
    requires
        d < 10,
    ensures
        c == digit_char(d as nat),
{
    if d == 0 { '0' } else if d == 1 { '1' } else if d == 2 { '2' } else if d == 3 { '3' } else if d == 4 {
        '4'
    } else if d == 5 { '5' } else if d == 6 { '6' } else if d == 7 { '7' } else if d == 8 { '8' } else { '9' }
}

/// The decimal representation of `n`.
pub fn decimal_chars(n: u64) -> (r: Vec<char>)
    ensures
        r@ == decimal(n as nat),
    decreases n,
{
    if n < 10 {
        let mut r: Vec<char> = Vec::new();
        r.push(digit_to_char(n));
        proof {
            assert(r@ =~= seq![digit_char(n as nat)]);
        }
        r
    } else {
        let mut r = decimal_chars(n / 10);
        r.push(digit_to_char(n % 10));
        r
    }
}

/// The decimal representation of `n`, zero-padded to `width` characters.
pub fn decimal_padded_chars(n: u64, width: usize) -> (r: Vec<char>)
    ensures
        r@ == decimal_padded(n as nat, width as nat),
{
    let d = decimal_chars(n);
    if d.len() >= width {
        return d;
    }
    let mut r: Vec<char> = Vec::new();
    let pad = width - d.len();
    let mut i: usize = 0;
    while i < pad
        invariant
            i <= pad,
            r@ == Seq::new(i as nat, |k: int| '0'),
        decreases pad - i,
    {
        r.push('0');
        proof {
            assert(r@ =~= Seq::new((i + 1) as nat, |k: int| '0'));
        }
        i = i + 1;
    }
    let mut k: usize = 0;
    let ghost zeros = r@;
    while k < d.len()
        invariant
            k <= d.len(),
            r@ == zeros + d@.take(k as int),
        decreases d.len() - k,
    {
        r.push(d[k]);
        proof {
            assert(d@.take(k + 1) == d@.take(k as int).push(d@[k as int]));
        }
        k = k + 1;
    }
    proof {
        assert(d@.take(d@.len() as int) == d@);
    }
    r
}

/// The decimal representation of `n` as a string.
pub fn decimal_string(n: u64) -> (s: String)
    ensures
        s@ == decimal(n as nat),
{
    let d = decimal_chars(n);
    string_of(&d)
}


/// Appends the characters of `s` to `v`.
pub fn push_all(v: &mut Vec<char>, s: &[char])
    ensures
        final(v)@ == old(v)@ + s@,
{
    let mut i: usize = 0;
    let ghost start = v@;
    while i < s.len()
        invariant
            i <= s.len(),
            v@ == start + s@.take(i as int),
        decreases s.len() - i,
    {
        v.push(s[i]);
        proof {
            assert(s@.take(i + 1) == s@.take(i as int).push(s@[i as int]));
        }
        i = i + 1;
    }
    proof {
        assert(s@.take(s@.len() as int) == s@);
    }
}


// ---------------------------------------------------------------------------
// Joining (std's `join` on a slice of strings)
// ---------------------------------------------------------------------------

/// The views of character vectors.
pub open spec fn comps(v: Seq<Vec<char>>) -> Seq<Seq<char>> {
    v.map_values(|p: Vec<char>| p@)
}

/// The pieces `ls` with `sep` between each two.
pub open spec fn join_with(ls: Seq<Seq<char>>, sep: Seq<char>) -> Seq<char>
    decreases ls.len(),
{
    if ls.len() == 0 {
        seq![]
    } else if ls.len() == 1 {
        ls[0]
    } else {
        join_with(ls.drop_last(), sep) + sep + ls.last()
    }
}

/// Joins the pieces `ls` with `sep` between each two.
pub fn join_chars(ls: &Vec<Vec<char>>, sep: &[char]) -> (r: Vec<char>)
    ensures
        r@ == join_with(comps(ls@), sep@),
{
    let ghost lv = comps(ls@);
    let mut r: Vec<char> = Vec::new();
    let mut i: usize = 0;
    proof {
        assert(lv.take(0).len() == 0);
    }
    while i < ls.len()
        invariant
            i <= ls.len(),
            lv == comps(ls@),
            r@ == join_with(lv.take(i as int), sep@),
        decreases ls.len() - i,
    {
        if i > 0 {
            push_all(&mut r, sep);
        }
        push_all(&mut r, &ls[i]);
        proof {
            let t = lv.take(i + 1);
            assert(t.drop_last() == lv.take(i as int));
            assert(t.last() == ls@[i as int]@);
            if i == 0 {
                assert(t.len() == 1);
            }
        }
        i = i + 1;
    }
    proof {
        assert(lv.take(lv.len() as int) == lv);
    }
    r
}


/// A copy of `v`.
pub fn copy_chars(v: &[char]) -> (r: Vec<char>)
    ensures
        r@ == v@,
{
    let mut r: Vec<char> = Vec::new();
    push_all(&mut r, v);
    r
}


// ---------------------------------------------------------------------------
// Case and occurrences
// ---------------------------------------------------------------------------

/// What std's `str::to_lowercase` makes of a string (Unicode lowercase mappings); a
/// function of the string alone.
pub uninterp spec fn lowercase_of(s: Seq<char>) -> Seq<char>;

/// The lowercase form of `s` (std's `str::to_lowercase`).
#[verifier::external_body]
pub(crate) fn to_lowercase(s: &str) -> (r: String)
    ensures
        r@ == lowercase_of(s@),
{
    s.to_lowercase()
}

/// The positions before `n` where `q` occurs in `t`, ascending (overlapping ones
/// included).
pub open spec fn occurrences_before(t: Seq<char>, q: Seq<char>, n: int) -> Seq<int>
    decreases n,
{
    if n <= 0 {
        seq![]
    } else if occurs_at(t, q, n - 1) {
        occurrences_before(t, q, n - 1).push(n - 1)
    } else {
        occurrences_before(t, q, n - 1)
    }
}

/// Every position where `q` occurs in `t`, ascending.
pub open spec fn occurrences(t: Seq<char>, q: Seq<char>) -> Seq<int> {
    occurrences_before(t, q, t.len() as int + 1)
}


/// Joining the pieces of `s` split at `c` with `c` gives `s` back.
pub proof fn lemma_join_split(s: Seq<char>, c: char)
    ensures
        join_with(split_char(s, c), seq![c]) == s,
    decreases s.len(),
{
    let i = index_of(s, c);
    lemma_index_of(s, c);
    if i >= 0 {
        let rest = s.skip(i + 1);
        lemma_join_split(rest, c);
        lemma_split_char_nonempty(rest, c);
        let p = split_char(s, c);
        let r = split_char(rest, c);
        assert(p == seq![s.take(i)] + r);
        lemma_join_prepend(s.take(i), r, seq![c]);
        assert(s.take(i) + seq![c] + rest =~= s);
    }
}

/// Joining a first piece before others.
pub proof fn lemma_join_prepend(a: Seq<char>, r: Seq<Seq<char>>, sep: Seq<char>)
    requires
        r.len() >= 1,
    ensures
        join_with(seq![a] + r, sep) == a + sep + join_with(r, sep),
    decreases r.len(),
{
    let all = seq![a] + r;
    if r.len() == 1 {
        assert(all.drop_last() =~= seq![a]);
        assert(join_with(seq![a], sep) == a);
        assert(all.last() == r[0]);
        assert(join_with(r, sep) == r[0]);
        assert(join_with(all, sep) == join_with(all.drop_last(), sep) + sep + all.last());
    } else {
        lemma_join_prepend(a, r.drop_last(), sep);
        assert(all.drop_last() =~= seq![a] + r.drop_last());
        assert(all.last() == r.last());
        assert(join_with(all, sep) == join_with(all.drop_last(), sep) + sep + all.last());
        assert(join_with(r, sep) == join_with(r.drop_last(), sep) + sep + r.last());
        assert(a + sep + join_with(r, sep) =~= a + sep + join_with(r.drop_last(), sep) + sep + r.last());
    }
}

} // verus!

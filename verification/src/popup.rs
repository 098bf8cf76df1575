use vstd::prelude::*;

use crate::config::{move_to_front, moved_to_front};
use crate::diff_request::non_empty;
use crate::model::strs;
use crate::nav::{Key, KeyCode};
use crate::text::{
    byte_len, bytes_len, char_index_of_byte, chars_of, comps, contains_exec, contains_seq, index_of, join_chars,
    join_with, lemma_byte_len_concat, lemma_index_of_at, lemma_index_of_none, lemma_join_prepend, split_at_char,
    split_char,
    lemma_prefix_bytes_mono, lemma_trim_start_suffix, lowercase_of, prefix_bytes, slice_vec, string_of, to_lowercase,
    trim, trim_exec, trim_start, trim_start_exec,
};
use crate::ui::ChecklistItem;

verus! {

// ---------------------------------------------------------------------------
// Commit messages
// ---------------------------------------------------------------------------

/// How many commit messages the history keeps.
pub const MAX_COMMIT_HISTORY: usize = 50;

/// Records a confirmed commit message at the front of the history (once, at most fifty
/// kept), unless it is blank.
pub fn remember_commit_message(history: &mut Vec<String>, text: &str)
    ensures
        trim(text@).len() > 0 ==> strs(final(history)@) == moved_to_front(strs(old(history)@), text@, MAX_COMMIT_HISTORY as nat),
        trim(text@).len() == 0 ==> final(history)@ == old(history)@,
{
    let t = trim_exec(&chars_of(text));
    if t.len() > 0 {
        move_to_front(history, text, MAX_COMMIT_HISTORY);
    }
}

/// The history kept in the contents of its file: the entries between NUL characters,
/// empty ones dropped.
pub open spec fn history_of(contents: Seq<char>) -> Seq<Seq<char>> {
    non_empty(split_char(contents, '\0'))
}

/// The contents of the history file for `history`: its entries with a NUL between each
/// two.
pub open spec fn history_contents(history: Seq<Seq<char>>) -> Seq<char> {
    join_with(history, seq!['\0'])
}

/// The commit message history kept in the file contents `contents` (see `history_of`).
pub fn parse_commit_history(contents: &str) -> (r: Vec<String>)
    ensures
        strs(r@) == history_of(contents@),
{
    let parts = split_at_char(&chars_of(contents), '\0');
    let ghost pv = split_char(contents@, '\0');
    proof {
        assert(comps(parts@) =~= parts@.map_values(|v: Vec<char>| v@));
    }
    let mut r: Vec<String> = Vec::new();
    let mut i: usize = 0;
    proof {
        assert(pv.take(0) =~= Seq::<Seq<char>>::empty());
    }
    while i < parts.len()
        invariant
            i <= parts@.len(),
            comps(parts@) == pv,
            strs(r@) == non_empty(pv.take(i as int)),
        decreases parts@.len() - i,
    {
        proof {
            let t = pv.take(i + 1);
            assert(t.drop_last() =~= pv.take(i as int));
            assert(t.last() == parts@[i as int]@);
        }
        if parts[i].len() > 0 {
            let e = string_of(&parts[i]);
            proof {
                assert(strs(r@.push(e)) =~= strs(r@).push(e@));
            }
            r.push(e);
        }
        i = i + 1;
    }
    proof {
        assert(pv.take(pv.len() as int) =~= pv);
    }
    r
}

/// The contents of the history file for `history` (see `history_contents`).
pub fn commit_history_contents(history: &Vec<String>) -> (r: String)
    ensures
        r@ == history_contents(strs(history@)),
{
    let mut parts: Vec<Vec<char>> = Vec::new();
    let mut i: usize = 0;
    while i < history.len()
        invariant
            i <= history@.len(),
            comps(parts@) == strs(history@).take(i as int),
        decreases history@.len() - i,
    {
        let p = chars_of(history[i].as_str());
        proof {
            assert(comps(parts@.push(p)) =~= comps(parts@).push(p@));
            assert(strs(history@).take(i + 1) =~= strs(history@).take(i as int).push(history@[i as int]@));
        }
        parts.push(p);
        i = i + 1;
    }
    proof {
        assert(strs(history@).take(history@.len() as int) =~= strs(history@));
    }
    let nul = vec!['\0'];
    proof {
        assert(nul@ =~= seq!['\0']);
    }
    string_of(&join_chars(&parts, &nul))
}

proof fn lemma_split_join(h: Seq<Seq<char>>, c: char)
    requires
        h.len() >= 1,
        forall|i: int, k: int| 0 <= i < h.len() && 0 <= k < h[i].len() ==> h[i][k] != c,
    ensures
        split_char(join_with(h, seq![c]), c) == h,
    decreases h.len(),
{
    let a = h[0];
    lemma_index_of_none(a, c);
    if h.len() == 1 {
        assert(split_char(a, c) == seq![a]);
        assert(h =~= seq![a]);
    } else {
        let r = h.drop_first();
        assert(h =~= seq![a] + r);
        lemma_join_prepend(a, r, seq![c]);
        lemma_split_join(r, c);
        let s = a + seq![c] + join_with(r, seq![c]);
        assert forall|k: int| 0 <= k < a.len() implies s[k] != c by {
            assert(s[k] == a[k]);
        }
        lemma_index_of_at(s, c, a.len() as int);
        assert(s.take(a.len() as int) =~= a);
        assert(s.skip(a.len() as int + 1) =~= join_with(r, seq![c]));
    }
}

proof fn lemma_non_empty_keeps(h: Seq<Seq<char>>)
    requires
        forall|i: int| 0 <= i < h.len() ==> h[i].len() > 0,
    ensures
        non_empty(h) == h,
    decreases h.len(),
{
    if h.len() > 0 {
        lemma_non_empty_keeps(h.drop_last());
        assert(h.drop_last().push(h.last()) =~= h);
    }
}

/// Reading the history file back gives the history that was written to it, when no
/// entry is empty or holds a NUL.
pub proof fn lemma_history_round_trip(history: Seq<Seq<char>>)
    requires
        forall|i: int| 0 <= i < history.len() ==> history[i].len() > 0,
        forall|i: int, k: int| 0 <= i < history.len() && 0 <= k < history[i].len() ==> history[i][k] != '\0',
    ensures
        history_of(history_contents(history)) == history,
{
    if history.len() == 0 {
        let e = Seq::<char>::empty();
        lemma_index_of_none(e, '\0');
        assert(history_contents(history) =~= e);
        assert(split_char(e, '\0') == seq![e]);
        assert(seq![e].drop_last() =~= Seq::<Seq<char>>::empty());
        assert(non_empty(seq![e]) == non_empty(seq![e].drop_last()));
        assert(history =~= Seq::<Seq<char>>::empty());
    } else {
        lemma_split_join(history, '\0');
        lemma_non_empty_keeps(history);
        assert(split_char(history_contents(history), '\0') == history);
    }
}

/// The commit message of the two fields: the summary alone when the body is blank, else
/// the summary, a blank line and the trimmed body.
pub open spec fn commit_text_of(summary: Seq<char>, body: Seq<char>) -> Seq<char> {
    if trim(body).len() == 0 {
        summary
    } else {
        summary + "\n\n"@ + trim(body)
    }
}

/// The commit message of the summary and body fields (see `commit_text_of`).
pub fn commit_text(summary: &str, body: &str) -> (r: String)
    ensures
        r@ == commit_text_of(summary@, body@),
{
    let b = trim_exec(&chars_of(body));
    if b.len() == 0 {
        crate::text::owned(summary)
    } else {
        let mut r = crate::text::cat(summary, "\n\n");
        let bs = string_of(&b);
        r.append(bs.as_str());
        r
    }
}

/// Where browsing the message history goes.
#[derive(Debug, Clone, Copy, PartialEq, Eq, Structural)]
pub enum HistoryMove {
    /// Nowhere: already at the draft.
    Stay,
    /// Back to the message being written.
    Draft,
    /// To the history entry of this index (0 the most recent).
    Entry(usize),
}

/// The entry an older-message step goes to from `at` (the draft when none): the most
/// recent entry from the draft, else the next older one, stopping at the oldest.
pub open spec fn older_entry(at: Option<usize>, len: nat) -> int {
    match at {
        None => 0,
        Some(i) => if i + 1 < len {
            i + 1
        } else {
            len - 1
        },
    }
}

/// The entry of the history shown after asking for an older message (see
/// `older_entry`).
pub fn history_older(at: Option<usize>, len: usize) -> (r: usize)
    requires
        len > 0,
    ensures
        r == older_entry(at, len as nat),
        r < len,
{
    match at {
        None => 0,
        Some(i) => if i < len - 1 {
            i + 1
        } else {
            len - 1
        },
    }
}

/// The step asking for a newer message takes from `at`: nothing from the draft, the
/// draft from the most recent entry, else the next newer entry.
pub open spec fn newer_step(at: Option<usize>) -> HistoryMove {
    match at {
        None => HistoryMove::Stay,
        Some(i) => if i == 0 {
            HistoryMove::Draft
        } else {
            HistoryMove::Entry((i - 1) as usize)
        },
    }
}

/// The step of asking for a newer message (see `newer_step`).
pub fn history_newer(at: Option<usize>) -> (m: HistoryMove)
    ensures
        m == newer_step(at),
{
    match at {
        None => HistoryMove::Stay,
        Some(i) => if i == 0 {
            HistoryMove::Draft
        } else {
            HistoryMove::Entry(i - 1)
        },
    }
}

/// Asking for a newer message right after an older one comes back where it was, unless
/// the older step stopped at the oldest entry.
pub proof fn lemma_newer_undoes_older(at: Option<usize>, len: nat)
    requires
        len > 0,
        len <= usize::MAX,
        at matches Some(i) ==> i + 1 < len,
    ensures
        newer_step(Some(older_entry(at, len) as usize)) == (match at {
            None => HistoryMove::Draft,
            Some(i) => HistoryMove::Entry(i),
        }),
{
}

/// The width at which the commit message wraps: the popup is 60% of the terminal, at
/// most 60 and at least 30 columns wide, with 4 columns of border and margin; a
/// configured width below that wins.
pub open spec fn wrap_width_of(terminal_width: int, config_width: int) -> int {
    let w = terminal_width * 60 / 100;
    let popup = if w > 60 {
        60
    } else if w < 30 {
        30
    } else {
        w
    };
    let inner = popup - 4;
    if config_width > 0 && config_width < inner {
        config_width
    } else {
        inner
    }
}

/// The width at which the commit message wraps (see `wrap_width_of`).
pub fn commit_wrap_width(terminal_width: u16, config_width: usize) -> (r: usize)
    requires
        terminal_width * 60 <= u16::MAX,
    ensures
        r == wrap_width_of(terminal_width as int, config_width as int),
{
    let w = terminal_width * 60 / 100;
    let popup: u16 = if w > 60 {
        60
    } else if w < 30 {
        30
    } else {
        w
    };
    let inner = (popup - 4) as usize;
    if config_width > 0 && config_width < inner {
        config_width
    } else {
        inner
    }
}

// ---------------------------------------------------------------------------
// Wrapping the commit message body
// ---------------------------------------------------------------------------

/// The first `w` bytes of `s` end on a character boundary.
pub open spec fn ends_on_char(s: Seq<char>, w: nat) -> bool {
    exists|k: int| 0 <= k <= s.len() && prefix_bytes(s, k) == w
}

/// The number of characters that make up the first `w` bytes of `s` (see
/// `ends_on_char`).
pub open spec fn chars_in_bytes(s: Seq<char>, w: nat) -> int {
    choose|k: int| 0 <= k <= s.len() && prefix_bytes(s, k) == w
}

/// The index of the last space among the first `p` characters of `s`, or -1.
pub open spec fn last_space_before(s: Seq<char>, p: int) -> int
    decreases p,
{
    if p <= 0 {
        -1
    } else if s[p - 1] == ' ' {
        p - 1
    } else {
        last_space_before(s, p - 1)
    }
}

/// Where a line longer than `w` bytes is cut: at the last space within its first `w`
/// bytes, or right after those bytes when there is none or it is the first character.
pub open spec fn wrap_cut(s: Seq<char>, w: nat) -> int {
    let p = chars_in_bytes(s, w);
    let q = last_space_before(s, p);
    if q <= 0 {
        p
    } else {
        q
    }
}

proof fn lemma_last_space_before(s: Seq<char>, p: int)
    requires
        p <= s.len(),
    ensures
        -1 <= last_space_before(s, p) < p || (p <= 0 && last_space_before(s, p) == -1),
        last_space_before(s, p) >= 0 ==> s[last_space_before(s, p)] == ' ',
    decreases p,
{
    if p > 0 && s[p - 1] != ' ' {
        lemma_last_space_before(s, p - 1);
    }
}

/// A line longer than `w` bytes whose first `w` bytes end on a character boundary is
/// cut inside it, after at least one character.
pub proof fn lemma_wrap_cut(s: Seq<char>, w: nat)
    requires
        w > 0,
        byte_len(s) > w,
        ends_on_char(s, w),
    ensures
        0 < wrap_cut(s, w) < s.len(),
        wrap_cut(s, w) <= chars_in_bytes(s, w),
        prefix_bytes(s, chars_in_bytes(s, w)) == w,
        0 < chars_in_bytes(s, w) < s.len(),
{
    let p = chars_in_bytes(s, w);
    assert(s.take(0) =~= Seq::<char>::empty());
    assert(s.take(s.len() as int) =~= s);
    if p == 0 {
        assert(byte_len(s.take(0)) == 0);
    }
    lemma_last_space_before(s, p);
}

/// What is left of a line after a cut at `c`: the rest without leading whitespace.
pub open spec fn after_cut(s: Seq<char>, c: int) -> Seq<char> {
    trim_start(s.skip(c))
}

/// What is left after a cut is shorter than the line, in characters and bytes alike.
pub proof fn lemma_after_cut_shorter(s: Seq<char>, c: int)
    requires
        0 < c <= s.len(),
    ensures
        after_cut(s, c).len() < s.len(),
        byte_len(after_cut(s, c)) <= byte_len(s),
{
    lemma_trim_start_suffix(s.skip(c));
    let t = s.skip(c);
    let k = t.len() - trim_start(t).len();
    assert(t =~= t.take(k) + t.skip(k));
    lemma_byte_len_concat(t.take(k), t.skip(k));
    assert(s =~= s.take(c) + t);
    lemma_byte_len_concat(s.take(c), t);
}

/// Whether wrapping `s` at `w` bytes cuts only on character boundaries.
pub open spec fn wraps_cleanly(s: Seq<char>, w: nat) -> bool
    decreases s.len(),
{
    if byte_len(s) <= w {
        true
    } else if w > 0 && ends_on_char(s, w) {
        proof {
            lemma_wrap_cut(s, w);
            lemma_after_cut_shorter(s, wrap_cut(s, w));
        }
        wraps_cleanly(after_cut(s, wrap_cut(s, w)), w)
    } else {
        false
    }
}

/// The lines a line becomes once its cuts start: the part before the cut, then the rest
/// wrapped in turn; an empty rest gives no line.
pub open spec fn wrap_rest(s: Seq<char>, w: nat) -> Seq<Seq<char>>
    decreases s.len(),
{
    if byte_len(s) <= w {
        if s.len() == 0 {
            seq![]
        } else {
            seq![s]
        }
    } else if w > 0 && ends_on_char(s, w) {
        proof {
            lemma_wrap_cut(s, w);
            lemma_after_cut_shorter(s, wrap_cut(s, w));
        }
        seq![s.take(wrap_cut(s, w))] + wrap_rest(after_cut(s, wrap_cut(s, w)), w)
    } else {
        seq![]
    }
}

/// The lines `line` becomes when wrapped at `w` bytes: itself when it fits.
pub open spec fn wrap_line_of(line: Seq<char>, w: nat) -> Seq<Seq<char>> {
    if byte_len(line) <= w {
        seq![line]
    } else {
        wrap_rest(line, w)
    }
}

/// Every line wrapped at `w` bytes, in order.
pub open spec fn wrap_lines_of(lines: Seq<Seq<char>>, w: nat) -> Seq<Seq<char>>
    decreases lines.len(),
{
    if lines.len() == 0 {
        seq![]
    } else {
        wrap_lines_of(lines.drop_last(), w) + wrap_line_of(lines.last(), w)
    }
}

proof fn lemma_wrap_rest_fits(s: Seq<char>, w: nat)
    requires
        w > 0,
        wraps_cleanly(s, w),
    ensures
        forall|k: int| 0 <= k < wrap_rest(s, w).len() ==> byte_len(#[trigger] wrap_rest(s, w)[k]) <= w,
    decreases s.len(),
{
    if byte_len(s) > w {
        lemma_wrap_cut(s, w);
        let c = wrap_cut(s, w);
        let p = chars_in_bytes(s, w);
        lemma_after_cut_shorter(s, c);
        lemma_wrap_rest_fits(after_cut(s, c), w);
        if c < p {
            lemma_prefix_bytes_mono(s, c, p);
        }
        let rest = wrap_rest(after_cut(s, c), w);
        assert(wrap_rest(s, w) == seq![s.take(c)] + rest);
        assert forall|k: int| 0 <= k < wrap_rest(s, w).len() implies byte_len(#[trigger] wrap_rest(s, w)[k]) <= w by {
            if k > 0 {
                assert(wrap_rest(s, w)[k] == rest[k - 1]);
            }
        }
    }
}

/// Every line that wrapping at `w` bytes gives is at most `w` bytes long, when every
/// line wraps on character boundaries.
pub proof fn lemma_wrapped_lines_fit(lines: Seq<Seq<char>>, w: nat)
    requires
        w > 0,
        forall|i: int| 0 <= i < lines.len() ==> wraps_cleanly(#[trigger] lines[i], w),
    ensures
        forall|k: int| 0 <= k < wrap_lines_of(lines, w).len() ==> byte_len(#[trigger] wrap_lines_of(lines, w)[k]) <= w,
    decreases lines.len(),
{
    if lines.len() > 0 {
        let init = lines.drop_last();
        assert forall|i: int| 0 <= i < init.len() implies wraps_cleanly(#[trigger] init[i], w) by {
            assert(init[i] == lines[i]);
        }
        lemma_wrapped_lines_fit(init, w);
        let last = lines.last();
        assert(wraps_cleanly(lines[lines.len() - 1], w));
        if byte_len(last) > w {
            lemma_wrap_rest_fits(last, w);
        }
        let a = wrap_lines_of(init, w);
        let b = wrap_line_of(last, w);
        assert forall|k: int| 0 <= k < wrap_lines_of(lines, w).len() implies byte_len(
            #[trigger] wrap_lines_of(lines, w)[k],
        ) <= w by {
            if k >= a.len() {
                assert(wrap_lines_of(lines, w)[k] == b[k - a.len()]);
            } else {
                assert(wrap_lines_of(lines, w)[k] == a[k]);
            }
        }
    }
}

/// Appends the lines that `line` becomes when wrapped at `w` bytes.
fn wrap_one(line: &[char], w: usize, out: &mut Vec<String>)
    requires
        w > 0,
        wraps_cleanly(line@, w as nat),
        byte_len(line@) <= usize::MAX,
    ensures
        strs(final(out)@) == strs(old(out)@) + wrap_line_of(line@, w as nat),
{
    let n = bytes_len(line);
    if n <= w {
        let l = string_of(line);
        proof {
            assert(strs(out@.push(l)) =~= strs(out@) + seq![line@]);
        }
        out.push(l);
        return;
    }
    let mut rem: Vec<char> = slice_vec(line, 0, line.len());
    proof {
        assert(rem@ =~= line@);
    }
    while bytes_len(&rem) > w
        invariant
            w > 0,
            wraps_cleanly(rem@, w as nat),
            byte_len(rem@) <= usize::MAX,
            strs(out@) + wrap_rest(rem@, w as nat) == strs(old(out)@) + wrap_rest(line@, w as nat),
        decreases rem@.len(),
    {
        let found = char_index_of_byte(&rem, w);
        let p = match found {
            Some(p) => p,
            None => {
                proof {
                    assert(!ends_on_char(rem@, w as nat));
                }
                0
            }
        };
        proof {
            lemma_wrap_cut(rem@, w as nat);
            let k0 = chars_in_bytes(rem@, w as nat);
            if k0 < p {
                lemma_prefix_bytes_mono(rem@, k0, p as int);
            } else if p < k0 {
                lemma_prefix_bytes_mono(rem@, p as int, k0);
            }
        }
        let mut j = p;
        while j > 0 && rem[j - 1] != ' '
            invariant
                j <= p < rem@.len(),
                last_space_before(rem@, j as int) == last_space_before(rem@, p as int),
            decreases j,
        {
            j = j - 1;
        }
        let c = if j <= 1 {
            p
        } else {
            j - 1
        };
        proof {
            assert(c == wrap_cut(rem@, w as nat));
            lemma_after_cut_shorter(rem@, c as int);
        }
        let piece = string_of(&slice_vec(&rem, 0, c));
        let tail = slice_vec(&rem, c, rem.len());
        let next = trim_start_exec(&tail);
        proof {
            assert(piece@ =~= rem@.take(c as int));
            assert(tail@ =~= rem@.skip(c as int));
            assert(strs(out@.push(piece)) =~= strs(out@).push(piece@));
            assert(wrap_rest(rem@, w as nat) =~= seq![rem@.take(c as int)] + wrap_rest(next@, w as nat));
            assert(strs(out@).push(piece@) + wrap_rest(next@, w as nat) =~= strs(out@) + wrap_rest(rem@, w as nat));
        }
        out.push(piece);
        rem = next;
    }
    if rem.len() > 0 {
        let l = string_of(&rem);
        proof {
            assert(strs(out@.push(l)) =~= strs(out@) + seq![rem@]);
        }
        out.push(l);
    } else {
        proof {
            assert(strs(out@) + wrap_rest(rem@, w as nat) =~= strs(out@));
        }
    }
}

/// Bytes of `lines` joined by newlines, one newline counted after every line.
pub open spec fn text_bytes(lines: Seq<Seq<char>>) -> nat
    decreases lines.len(),
{
    if lines.len() == 0 {
        0
    } else {
        byte_len(lines[0]) + 1 + text_bytes(lines.drop_first())
    }
}

/// The byte offset of the cursor at (`row`, `col`) in `lines` joined by newlines, the
/// column counting at most to the end of its line; past the last line, the whole text.
pub open spec fn cursor_offset(lines: Seq<Seq<char>>, row: nat, col: nat) -> nat
    decreases lines.len(),
{
    if lines.len() == 0 {
        0
    } else if row == 0 {
        if col < byte_len(lines[0]) {
            col
        } else {
            byte_len(lines[0])
        }
    } else {
        byte_len(lines[0]) + 1 + cursor_offset(lines.drop_first(), (row - 1) as nat, col)
    }
}

/// The (row, column) of byte offset `a` in `lines` joined by newlines: on the first line
/// whose end reaches it, else the row after the last line, at its start.
pub open spec fn cursor_place(lines: Seq<Seq<char>>, a: nat) -> (nat, nat)
    decreases lines.len(),
{
    if lines.len() == 0 {
        (0, 0)
    } else if byte_len(lines[0]) >= a {
        (0, a)
    } else {
        let p = cursor_place(lines.drop_first(), (a - byte_len(lines[0]) - 1) as nat);
        ((p.0 + 1) as nat, p.1)
    }
}

proof fn lemma_cursor_offset_bound(lines: Seq<Seq<char>>, row: nat, col: nat)
    ensures
        cursor_offset(lines, row, col) <= text_bytes(lines),
    decreases lines.len(),
{
    if lines.len() > 0 && row > 0 {
        lemma_cursor_offset_bound(lines.drop_first(), (row - 1) as nat, col);
    }
}

proof fn lemma_text_bytes_line(lines: Seq<Seq<char>>, i: int)
    requires
        0 <= i < lines.len(),
    ensures
        byte_len(lines[i]) < text_bytes(lines),
    decreases i,
{
    if i > 0 {
        lemma_text_bytes_line(lines.drop_first(), i - 1);
    }
}

/// Some line of `lines` is longer than `w` bytes.
pub open spec fn needs_wrap(lines: Seq<Seq<char>>, w: nat) -> bool {
    exists|i: int| 0 <= i < lines.len() && byte_len(lines[i]) > w
}

/// Wraps the lines of a commit message body at `wrap_width` bytes and carries the cursor
/// at (`cursor_row`, `cursor_col`) along. `None` when nothing needs it: the width is
/// zero or no line is longer. Else the wrapped lines and the cursor's new row and
/// column: its byte offset in the text is kept, and placed on the first wrapped line
/// whose end reaches it.
pub fn auto_wrap(lines: &Vec<String>, cursor_row: usize, cursor_col: usize, wrap_width: usize) -> (r: Option<
    (Vec<String>, usize, usize),
>)
    requires
        text_bytes(strs(lines@)) <= usize::MAX,
        wrap_width > 0 ==> forall|i: int| 0 <= i < lines@.len() ==> #[trigger] wraps_cleanly(lines@[i]@, wrap_width as nat),
    ensures
        wrap_width == 0 || !needs_wrap(strs(lines@), wrap_width as nat) ==> r is None,
        wrap_width > 0 && needs_wrap(strs(lines@), wrap_width as nat) ==> (r matches Some((out, row, col)) && {
            let wrapped = wrap_lines_of(strs(lines@), wrap_width as nat);
            let place = cursor_place(wrapped, cursor_offset(strs(lines@), cursor_row as nat, cursor_col as nat));
            &&& strs(out@) == wrapped
            &&& row == place.0
            &&& col == place.1
        }),
{
    if wrap_width == 0 || !any_line_longer(lines, wrap_width) {
        return None;
    }
    let offset = cursor_byte_offset(lines, cursor_row, cursor_col);
    let out = wrap_all(lines, wrap_width);
    let (row, col) = place_cursor(&out, offset);
    Some((out, row, col))
}

/// Whether some line of `lines` is longer than `w` bytes.
fn any_line_longer(lines: &Vec<String>, w: usize) -> (b: bool)
    requires
        text_bytes(strs(lines@)) <= usize::MAX,
    ensures
        b == needs_wrap(strs(lines@), w as nat),
{
    let ghost ls = strs(lines@);
    let mut i: usize = 0;
    while i < lines.len()
        invariant
            i <= lines@.len(),
            ls == strs(lines@),
            text_bytes(ls) <= usize::MAX,
            forall|k: int| 0 <= k < i ==> byte_len(ls[k]) <= w,
        decreases lines@.len() - i,
    {
        let cs = chars_of(lines[i].as_str());
        proof {
            lemma_text_bytes_line(ls, i as int);
        }
        if bytes_len(&cs) > w {
            return true;
        }
        i = i + 1;
    }
    false
}

/// The byte offset of the cursor at (`row`, `col`) (see `cursor_offset`).
fn cursor_byte_offset(lines: &Vec<String>, row: usize, col: usize) -> (r: usize)
    requires
        text_bytes(strs(lines@)) <= usize::MAX,
    ensures
        r == cursor_offset(strs(lines@), row as nat, col as nat),
{
    let ghost ls = strs(lines@);
    let mut offset: usize = 0;
    let mut i: usize = 0;
    proof {
        lemma_cursor_offset_bound(ls, row as nat, col as nat);
        assert(ls.skip(0) == ls);
    }
    while i < lines.len() && i < row
        invariant
            i <= lines@.len(),
            i <= row,
            ls == strs(lines@),
            cursor_offset(ls, row as nat, col as nat) <= usize::MAX,
            offset + cursor_offset(ls.skip(i as int), (row - i) as nat, col as nat) == cursor_offset(
                ls,
                row as nat,
                col as nat,
            ),
        decreases lines@.len() - i,
    {
        let cs = chars_of(lines[i].as_str());
        proof {
            assert(ls.skip(i as int)[0] == ls[i as int]);
            assert(ls.skip(i as int).drop_first() == ls.skip(i + 1));
        }
        let n = bytes_len(&cs);
        offset = offset + n + 1;
        i = i + 1;
    }
    if i < lines.len() {
        let cs = chars_of(lines[i].as_str());
        proof {
            assert(ls.skip(i as int)[0] == ls[i as int]);
        }
        let n = bytes_len(&cs);
        offset = offset + if col < n {
            col
        } else {
            n
        };
    } else {
        proof {
            assert(ls.skip(i as int).len() == 0);
        }
    }
    offset
}

/// Every line wrapped at `w` bytes (see `wrap_lines_of`).
fn wrap_all(lines: &Vec<String>, w: usize) -> (out: Vec<String>)
    requires
        w > 0,
        text_bytes(strs(lines@)) <= usize::MAX,
        forall|i: int| 0 <= i < lines@.len() ==> #[trigger] wraps_cleanly(lines@[i]@, w as nat),
    ensures
        strs(out@) == wrap_lines_of(strs(lines@), w as nat),
{
    let ghost ls = strs(lines@);
    let mut out: Vec<String> = Vec::new();
    let mut i: usize = 0;
    while i < lines.len()
        invariant
            i <= lines@.len(),
            w > 0,
            ls == strs(lines@),
            text_bytes(ls) <= usize::MAX,
            forall|k: int| 0 <= k < lines@.len() ==> #[trigger] wraps_cleanly(lines@[k]@, w as nat),
            strs(out@) == wrap_lines_of(ls.take(i as int), w as nat),
        decreases lines@.len() - i,
    {
        let cs = chars_of(lines[i].as_str());
        proof {
            lemma_text_bytes_line(ls, i as int);
            assert(ls[i as int] == lines@[i as int]@);
            assert(ls.take(i + 1).drop_last() =~= ls.take(i as int));
        }
        wrap_one(&cs, w, &mut out);
        i = i + 1;
    }
    proof {
        assert(ls.take(lines@.len() as int) =~= ls);
    }
    out
}

/// The (row, column) of byte offset `offset` in `out` (see `cursor_place`).
fn place_cursor(out: &Vec<String>, offset: usize) -> (r: (usize, usize))
    ensures
        (r.0 as nat, r.1 as nat) == cursor_place(strs(out@), offset as nat),
{
    let ghost wrapped = strs(out@);
    let mut at: usize = 0;
    let mut row: usize = 0;
    let mut col: usize = 0;
    let mut k: usize = 0;
    let mut placed = false;
    proof {
        assert(wrapped.skip(0) == wrapped);
    }
    while k < out.len() && !placed
        invariant
            k <= out@.len(),
            wrapped == strs(out@),
            at <= offset,
            !placed ==> row == k && {
                let p = cursor_place(wrapped.skip(k as int), (offset - at) as nat);
                cursor_place(wrapped, offset as nat) == ((k + p.0) as nat, p.1)
            },
            placed ==> cursor_place(wrapped, offset as nat) == (row as nat, col as nat),
            !placed ==> col == 0,
        decreases out@.len() - k, if placed { 0int } else { 1int },
    {
        let cs = chars_of(out[k].as_str());
        let n = bytes_len(&cs);
        proof {
            assert(wrapped.skip(k as int)[0] == wrapped[k as int]);
            assert(wrapped.skip(k as int).drop_first() == wrapped.skip(k + 1));
        }
        if n >= offset - at {
            row = k;
            col = offset - at;
            placed = true;
        } else {
            at = at + n + 1;
            k = k + 1;
            row = k;
        }
    }
    proof {
        if !placed {
            assert(wrapped.skip(k as int).len() == 0);
        }
    }
    (row, col)
}

// ---------------------------------------------------------------------------
// Menus
// ---------------------------------------------------------------------------

/// The entry selected after moving down: the first enabled one below, or the same when
/// there is none.
pub fn menu_next(enabled: &[bool], selected: usize) -> (r: usize)
    ensures
        (exists|k: int| selected < k < enabled@.len() && enabled@[k]) ==> {
            &&& selected < r < enabled@.len()
            &&& enabled@[r as int]
            &&& forall|j: int| selected < j < r ==> !enabled@[j]
        },
        !(exists|k: int| selected < k < enabled@.len() && enabled@[k]) ==> r == selected,
{
    if selected >= enabled.len() {
        return selected;
    }
    let mut next = selected + 1;
    while next < enabled.len() && !enabled[next]
        invariant
            selected < next <= enabled@.len(),
            forall|j: int| selected < j < next ==> !enabled@[j],
        decreases enabled@.len() - next,
    {
        next = next + 1;
    }
    if next < enabled.len() {
        next
    } else {
        selected
    }
}

/// The entry selected after moving up: the nearest enabled one above, or the same when
/// there is none; the search goes no further up than the first entry.
pub fn menu_prev(enabled: &[bool], selected: usize) -> (r: usize)
    requires
        selected <= enabled@.len(),
    ensures
        (exists|k: int| 0 <= k < selected && enabled@[k]) ==> {
            &&& r < selected
            &&& enabled@[r as int]
            &&& forall|j: int| r < j < selected ==> !enabled@[j]
        },
        !(exists|k: int| 0 <= k < selected && enabled@[k]) ==> r == selected,
{
    if selected == 0 {
        return selected;
    }
    let mut prev = selected - 1;
    while prev > 0 && !enabled[prev]
        invariant
            prev < selected <= enabled@.len(),
            forall|j: int| prev < j < selected ==> !enabled@[j],
        decreases prev,
    {
        prev = prev - 1;
    }
    if enabled[prev] {
        prev
    } else {
        proof {
            assert forall|k: int| 0 <= k < selected implies !enabled@[k] by {
                if k > 0 {
                    assert(prev == 0);
                }
            }
        }
        selected
    }
}

/// The entry whose shortcut is `c`: the first with that key, chosen only when it is
/// enabled.
pub fn menu_shortcut(keys: &[Option<char>], enabled: &[bool], c: char) -> (r: Option<usize>)
    requires
        keys@.len() == enabled@.len(),
    ensures
        match r {
            Some(i) => i < keys@.len() && keys@[i as int] == Some(c) && enabled@[i as int] && forall|j: int|
                0 <= j < i ==> keys@[j] != Some(c),
            None => forall|i: int|
                0 <= i < keys@.len() && keys@[i] == Some(c) ==> !enabled@[i] || exists|j: int| 0 <= j < i && keys@[j] == Some(c),
        },
{
    let mut i: usize = 0;
    while i < keys.len()
        invariant
            i <= keys@.len(),
            keys@.len() == enabled@.len(),
            forall|j: int| 0 <= j < i ==> keys@[j] != Some(c),
        decreases keys@.len() - i,
    {
        if keys[i] == Some(c) {
            if enabled[i] {
                return Some(i);
            } else {
                return None;
            }
        }
        i = i + 1;
    }
    None
}

// ---------------------------------------------------------------------------
// Checklists
// ---------------------------------------------------------------------------

/// An item shows under the search `search` when the search is empty or its lowercase
/// label holds the lowercase search.
pub open spec fn shown_under(label: Seq<char>, search: Seq<char>) -> bool {
    search.len() == 0 || contains_seq(lowercase_of(label), lowercase_of(search))
}

/// The indices of the items shown below `n`, ascending.
pub open spec fn shown_before(items: Seq<ChecklistItem>, search: Seq<char>, n: int) -> Seq<usize>
    decreases n,
{
    if n <= 0 {
        seq![]
    } else if shown_under(items[n - 1].label@, search) {
        shown_before(items, search, n - 1).push((n - 1) as usize)
    } else {
        shown_before(items, search, n - 1)
    }
}

/// The indices of the items shown under `search`, ascending.
pub fn checklist_visible(items: &Vec<ChecklistItem>, search: &str) -> (r: Vec<usize>)
    ensures
        r@ == shown_before(items@, search@, items@.len() as int),
{
    let mut r: Vec<usize> = Vec::new();
    let empty = search.is_empty();
    let q = chars_of(to_lowercase(search).as_str());
    let mut i: usize = 0;
    while i < items.len()
        invariant
            i <= items@.len(),
            empty == (search@.len() == 0),
            q@ == lowercase_of(search@),
            r@ == shown_before(items@, search@, i as int),
        decreases items@.len() - i,
    {
        let show = empty || contains_exec(&chars_of(to_lowercase(items[i].label.as_str()).as_str()), &q);
        if show {
            r.push(i);
        }
        i = i + 1;
    }
    r
}

/// The selection after moving down among `visible` shown items: one further, stopping at
/// the last; unchanged when none is shown.
pub fn checklist_down(selected: usize, visible: usize) -> (r: usize)
    ensures
        visible == 0 ==> r == selected,
        visible > 0 ==> r == (if selected + 1 < visible { selected + 1 } else { visible - 1 }),
{
    if visible == 0 {
        selected
    } else if selected < visible - 1 {
        selected + 1
    } else {
        visible - 1
    }
}

/// Flips the check of the shown item at position `selected` among the shown ones
/// (`visible`, indices into `items`); nothing when there is no such position.
pub fn toggle_shown(items: &mut Vec<ChecklistItem>, visible: &Vec<usize>, selected: usize)
    requires
        forall|k: int| 0 <= k < visible@.len() ==> #[trigger] visible@[k] < old(items)@.len(),
    ensures
        final(items)@.len() == old(items)@.len(),
        selected < visible@.len() ==> {
            let t = visible@[selected as int] as int;
            &&& final(items)@[t].checked == !old(items)@[t].checked
            &&& final(items)@[t].label == old(items)@[t].label
            &&& forall|k: int| 0 <= k < old(items)@.len() && k != t ==> final(items)@[k] == old(items)@[k]
        },
        selected >= visible@.len() ==> final(items)@ == old(items)@,
{
    if selected < visible.len() {
        let t = visible[selected];
        let label = items[t].label.clone();
        let checked = items[t].checked;
        items.set(t, ChecklistItem { label, checked: !checked });
    }
}

/// Clears every check.
pub fn clear_checks(items: &mut Vec<ChecklistItem>)
    ensures
        final(items)@.len() == old(items)@.len(),
        forall|k: int| 0 <= k < final(items)@.len() ==> !(#[trigger] final(items)@[k]).checked && final(items)@[k].label == old(items)@[k].label,
{
    let mut i: usize = 0;
    while i < items.len()
        invariant
            i <= items@.len(),
            items@.len() == old(items)@.len(),
            forall|k: int| 0 <= k < i ==> !(#[trigger] items@[k]).checked && items@[k].label == old(items)@[k].label,
            forall|k: int| i <= k < items@.len() ==> #[trigger] items@[k] == old(items)@[k],
        decreases items@.len() - i,
    {
        let label = items[i].label.clone();
        items.set(i, ChecklistItem { label, checked: false });
        i = i + 1;
    }
}

/// The labels of the checked items, in order.
pub open spec fn checked_before(items: Seq<ChecklistItem>, n: int) -> Seq<Seq<char>>
    decreases n,
{
    if n <= 0 {
        seq![]
    } else if items[n - 1].checked {
        checked_before(items, n - 1).push(items[n - 1].label@)
    } else {
        checked_before(items, n - 1)
    }
}

/// The labels of the checked items, in order.
pub fn checked_labels(items: &Vec<ChecklistItem>) -> (r: Vec<String>)
    ensures
        strs(r@) == checked_before(items@, items@.len() as int),
{
    let mut r: Vec<String> = Vec::new();
    let mut i: usize = 0;
    while i < items.len()
        invariant
            i <= items@.len(),
            strs(r@) == checked_before(items@, i as int),
        decreases items@.len() - i,
    {
        if items[i].checked {
            let l = items[i].label.clone();
            proof {
                assert(strs(r@.push(l)) =~= strs(r@).push(l@));
            }
            r.push(l);
        }
        i = i + 1;
    }
    r
}

/// The open popup, as far as its keys are concerned.
#[derive(Debug, Clone, Copy, PartialEq, Eq, Structural)]
pub enum PopupKind {
    Confirm,
    Message,
    Menu,
    /// A text prompt; a commit message prompt has a confirm button that can take the focus.
    Input { is_commit: bool, confirm_focused: bool },
    /// The two-field commit message editor.
    CommitInput { summary_focused: bool },
    Checklist,
    Loading,
    Help,
    RefPicker,
}

/// What a key does in an open popup.
#[derive(Debug, Clone, Copy, PartialEq, Eq, Structural)]
pub enum PopupKeyAction {
    /// Nothing happens.
    Ignore,
    /// The popup closes with nothing done.
    Close,
    /// The popup's action runs (the confirmation, the prompt's text, the commit, the
    /// checked items).
    Submit,
    MenuNext,
    MenuPrev,
    MenuRun,
    /// Back to the commit prompt the menu was opened from, or closed.
    MenuCancel,
    /// The menu entry of this shortcut runs, if it is enabled.
    MenuShortcut(char),
    /// The focus moves between the text and the confirm button, or summary and body.
    ToggleFocus,
    /// An older (`true`) or newer commit message from the history, where the cursor
    /// allows it.
    History(bool),
    /// The commit message menu opens.
    CommitMenu,
    /// The key is typed into the text being edited.
    TypeText,
    ChecklistNext,
    ChecklistPrev,
    ChecklistToggle,
    ChecklistClearAll,
    SearchBackspace,
    SearchType(char),
    /// The help popup's own keys.
    HelpKey,
    /// The ref picker's own keys.
    PickerKey,
}

/// What `key` does in an open popup of kind `p`; `has_history` says whether earlier
/// commit messages are remembered.
pub open spec fn popup_key_action_of(p: PopupKind, key: Key, has_history: bool) -> PopupKeyAction {
    let c = key.code;
    match p {
        PopupKind::Confirm => if c == KeyCode::Char('y') || c == KeyCode::Enter {
            PopupKeyAction::Submit
        } else {
            PopupKeyAction::Close
        },
        PopupKind::Message => PopupKeyAction::Close,
        PopupKind::Menu => match c {
            KeyCode::Char('j') | KeyCode::Down => PopupKeyAction::MenuNext,
            KeyCode::Char('k') | KeyCode::Up => PopupKeyAction::MenuPrev,
            KeyCode::Enter => PopupKeyAction::MenuRun,
            KeyCode::Esc => PopupKeyAction::MenuCancel,
            KeyCode::Char(ch) => PopupKeyAction::MenuShortcut(ch),
            _ => PopupKeyAction::Ignore,
        },
        PopupKind::Input { is_commit, confirm_focused } => if is_commit && c == KeyCode::Tab {
            PopupKeyAction::ToggleFocus
        } else if (is_commit && c == KeyCode::Char('s') && key.ctrl) || (is_commit && confirm_focused && c
            == KeyCode::Enter) || (!is_commit && c == KeyCode::Enter) {
            PopupKeyAction::Submit
        } else if c == KeyCode::Esc {
            PopupKeyAction::Close
        } else if is_commit && !confirm_focused && (c == KeyCode::Up || c == KeyCode::Down) && has_history {
            PopupKeyAction::History(c == KeyCode::Up)
        } else if is_commit && !confirm_focused && c == KeyCode::Char('o') && key.ctrl {
            PopupKeyAction::CommitMenu
        } else if !confirm_focused {
            PopupKeyAction::TypeText
        } else {
            PopupKeyAction::Ignore
        },
        PopupKind::CommitInput { summary_focused } => if c == KeyCode::Tab {
            PopupKeyAction::ToggleFocus
        } else if summary_focused && c == KeyCode::Enter {
            PopupKeyAction::Submit
        } else if c == KeyCode::Esc {
            PopupKeyAction::Close
        } else if c == KeyCode::Char('o') && key.ctrl {
            PopupKeyAction::CommitMenu
        } else if summary_focused && (c == KeyCode::Up || c == KeyCode::Down) && has_history {
            PopupKeyAction::History(c == KeyCode::Up)
        } else {
            PopupKeyAction::TypeText
        },
        PopupKind::Checklist => if c == KeyCode::Char('a') && key.ctrl {
            PopupKeyAction::ChecklistClearAll
        } else {
            match c {
                KeyCode::Down | KeyCode::Char('j') => PopupKeyAction::ChecklistNext,
                KeyCode::Up | KeyCode::Char('k') => PopupKeyAction::ChecklistPrev,
                KeyCode::Char(' ') => PopupKeyAction::ChecklistToggle,
                KeyCode::Enter => PopupKeyAction::Submit,
                KeyCode::Esc => PopupKeyAction::Close,
                KeyCode::Backspace => PopupKeyAction::SearchBackspace,
                KeyCode::Char(ch) => PopupKeyAction::SearchType(ch),
                _ => PopupKeyAction::Ignore,
            }
        },
        PopupKind::Loading => PopupKeyAction::Ignore,
        PopupKind::Help => PopupKeyAction::HelpKey,
        PopupKind::RefPicker => PopupKeyAction::PickerKey,
    }
}

/// What `key` does in an open popup (see `popup_key_action_of`).
pub fn popup_key_action(p: PopupKind, key: Key, has_history: bool) -> (a: PopupKeyAction)
    ensures
        a == popup_key_action_of(p, key, has_history),
{
    let c = key.code;
    match p {
        PopupKind::Confirm => if c == KeyCode::Char('y') || c == KeyCode::Enter {
            PopupKeyAction::Submit
        } else {
            PopupKeyAction::Close
        },
        PopupKind::Message => PopupKeyAction::Close,
        PopupKind::Menu => match c {
            KeyCode::Char('j') | KeyCode::Down => PopupKeyAction::MenuNext,
            KeyCode::Char('k') | KeyCode::Up => PopupKeyAction::MenuPrev,
            KeyCode::Enter => PopupKeyAction::MenuRun,
            KeyCode::Esc => PopupKeyAction::MenuCancel,
            KeyCode::Char(ch) => PopupKeyAction::MenuShortcut(ch),
            _ => PopupKeyAction::Ignore,
        },
        PopupKind::Input { is_commit, confirm_focused } => if is_commit && c == KeyCode::Tab {
            PopupKeyAction::ToggleFocus
        } else if (is_commit && c == KeyCode::Char('s') && key.ctrl) || (is_commit && confirm_focused && c
            == KeyCode::Enter) || (!is_commit && c == KeyCode::Enter) {
            PopupKeyAction::Submit
        } else if c == KeyCode::Esc {
            PopupKeyAction::Close
        } else if is_commit && !confirm_focused && (c == KeyCode::Up || c == KeyCode::Down) && has_history {
            PopupKeyAction::History(c == KeyCode::Up)
        } else if is_commit && !confirm_focused && c == KeyCode::Char('o') && key.ctrl {
            PopupKeyAction::CommitMenu
        } else if !confirm_focused {
            PopupKeyAction::TypeText
        } else {
            PopupKeyAction::Ignore
        },
        PopupKind::CommitInput { summary_focused } => if c == KeyCode::Tab {
            PopupKeyAction::ToggleFocus
        } else if summary_focused && c == KeyCode::Enter {
            PopupKeyAction::Submit
        } else if c == KeyCode::Esc {
            PopupKeyAction::Close
        } else if c == KeyCode::Char('o') && key.ctrl {
            PopupKeyAction::CommitMenu
        } else if summary_focused && (c == KeyCode::Up || c == KeyCode::Down) && has_history {
            PopupKeyAction::History(c == KeyCode::Up)
        } else {
            PopupKeyAction::TypeText
        },
        PopupKind::Checklist => if c == KeyCode::Char('a') && key.ctrl {
            PopupKeyAction::ChecklistClearAll
        } else {
            match c {
                KeyCode::Down | KeyCode::Char('j') => PopupKeyAction::ChecklistNext,
                KeyCode::Up | KeyCode::Char('k') => PopupKeyAction::ChecklistPrev,
                KeyCode::Char(' ') => PopupKeyAction::ChecklistToggle,
                KeyCode::Enter => PopupKeyAction::Submit,
                KeyCode::Esc => PopupKeyAction::Close,
                KeyCode::Backspace => PopupKeyAction::SearchBackspace,
                KeyCode::Char(ch) => PopupKeyAction::SearchType(ch),
                _ => PopupKeyAction::Ignore,
            }
        },
        PopupKind::Loading => PopupKeyAction::Ignore,
        PopupKind::Help => PopupKeyAction::HelpKey,
        PopupKind::RefPicker => PopupKeyAction::PickerKey,
    }
}

} // verus!

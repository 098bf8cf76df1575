use vstd::prelude::*;

use crate::text::{decimal_padded, decimal_padded_chars, owned, string_of};

pub mod diff_algo;
pub mod notes_store;
pub mod side_by_side;
pub mod word_diff;

verus! {

/// Who wrote a note.
#[derive(Debug, Clone, Copy, PartialEq, Eq)]
pub enum NoteSource {
    /// The user, in the diff view.
    User,
    /// An AI agent.
    Agent,
}

/// Where a note stands: new, addressed, or dismissed.
#[derive(Debug, Clone, Copy, PartialEq, Eq)]
pub enum NoteStatus {
    /// Written but not yet sent to the agent.
    New,
    /// Sent to the agent.
    Sent,
    /// The agent answered on the same line.
    Addressed,
}

/// A note attached to a diff line.
#[derive(Debug, Clone)]
pub struct CommentNote {
    pub id: String,
    pub text: String,
    /// Whether the note is on the old side.
    pub is_old: bool,
    pub source: NoteSource,
    pub author: String,
    /// ISO 8601 creation time.
    pub created_at: String,
    pub status: NoteStatus,
    pub tags: Vec<String>,
    /// How sure an agent is: "low", "medium" or "high".
    pub confidence: Option<String>,
    pub rationale: Option<String>,
}

/// How a diff line changed.
#[derive(Debug, Clone, Copy, PartialEq, Eq, Structural)]
pub enum ChangeType {
    Equal,
    Delete,
    Insert,
    Modified,
}

/// A piece of a modified line, emphasized when it changed.
#[derive(Debug, Clone)]
pub struct InlineSegment {
    pub text: String,
    pub emphasized: bool,
}

/// One row of a side-by-side diff.
#[derive(Debug, Clone)]
pub struct DiffLine {
    /// Left side: line number and text; none when the line exists only on the right.
    pub old_line: Option<(usize, String)>,
    /// Right side: line number and text; none when the line exists only on the left.
    pub new_line: Option<(usize, String)>,
    pub change_type: ChangeType,
    /// Word-level pieces of the left side.
    pub old_segments: Option<Vec<InlineSegment>>,
    /// Word-level pieces of the right side.
    pub new_segments: Option<Vec<InlineSegment>>,
    /// The file name, when this row separates files of a multi-file diff.
    pub file_header: Option<String>,
    /// Notes attached to this row.
    pub comment_notes: Vec<CommentNote>,
    /// The file section of a multi-file diff this row belongs to.
    pub section_index: usize,
}

// ---------------------------------------------------------------------------
// Tabs
// ---------------------------------------------------------------------------

/// `s` with each tab replaced by the spaces up to the next multiple of `tab_width`
/// columns, counting one column per character.
pub open spec fn expanded(s: Seq<char>, tab_width: nat) -> Seq<char>
    decreases s.len(),
{
    if s.len() == 0 {
        seq![]
    } else {
        let p = expanded(s.drop_last(), tab_width);
        if s.last() == '\t' {
            p + Seq::new((tab_width - (p.len() % tab_width)) as nat, |i: int| ' ')
        } else {
            p.push(s.last())
        }
    }
}

/// Whether `s` holds a tab.
pub open spec fn has_tab(s: Seq<char>) -> bool {
    exists|i: int| 0 <= i < s.len() && s[i] == '\t'
}

/// Expands the tabs of `s` to spaces, to the next multiple of `tab_width` columns.
pub fn expand_tabs(s: &str, tab_width: usize) -> (r: String)
    requires
        tab_width > 0 || !has_tab(s@),
    ensures
        r@ == expanded(s@, tab_width as nat),
{
    let v = crate::text::chars_of(s);
    let r = expand_tabs_chars(&v, tab_width);
    string_of(&r)
}

/// Expands the tabs of `s`.
pub fn expand_tabs_chars(s: &[char], tab_width: usize) -> (r: Vec<char>)
    requires
        tab_width > 0 || !has_tab(s@),
    ensures
        r@ == expanded(s@, tab_width as nat),
{
    let mut r: Vec<char> = Vec::new();
    let mut i: usize = 0;
    proof {
        assert(s@.take(0) == Seq::<char>::empty());
    }
    while i < s.len()
        invariant
            i <= s.len(),
            tab_width > 0 || !has_tab(s@),
            r@ == expanded(s@.take(i as int), tab_width as nat),
        decreases s.len() - i,
    {
        let c = s[i];
        proof {
            assert(s@.take(i + 1).drop_last() == s@.take(i as int));
            assert(s@.take(i + 1).last() == c);
        }
        if c == '\t' {
            let col = r.len();
            let spaces = tab_width - (col % tab_width);
            let ghost before = r@;
            let mut k: usize = 0;
            while k < spaces
                invariant
                    k <= spaces,
                    r@ == before + Seq::new(k as nat, |j: int| ' '),
                decreases spaces - k,
            {
                r.push(' ');
                proof {
                    assert(r@ =~= before + Seq::new((k + 1) as nat, |j: int| ' '));
                }
                k = k + 1;
            }
        } else {
            r.push(c);
        }
        i = i + 1;
    }
    proof {
        assert(s@.take(s@.len() as int) == s@);
    }
    r
}

// ---------------------------------------------------------------------------
// Time stamps
// ---------------------------------------------------------------------------

/// Whether `y` is a leap year of the Gregorian calendar.
pub open spec fn is_leap(y: int) -> bool {
    (y % 4 == 0 && y % 100 != 0) || y % 400 == 0
}

/// Days in year `y`.
pub open spec fn year_days(y: int) -> int {
    if is_leap(y) {
        366
    } else {
        365
    }
}

/// Days in month `m` (1 to 12) of year `y`.
pub open spec fn month_days(y: int, m: int) -> int {
    if m == 2 {
        if is_leap(y) {
            29
        } else {
            28
        }
    } else if m == 4 || m == 6 || m == 9 || m == 11 {
        30
    } else {
        31
    }
}

/// Leap years before year `y` (from year 1).
pub open spec fn leaps_before(y: int) -> int {
    (y - 1) / 4 - (y - 1) / 100 + (y - 1) / 400
}

/// Days from 1970-01-01 to the first day of year `y`.
pub open spec fn days_before_year(y: int) -> int {
    365 * (y - 1970) + leaps_before(y) - leaps_before(1970)
}

/// Days from the first day of year `y` to the first day of month `m`.
pub open spec fn days_before_month(y: int, m: int) -> int
    decreases m,
{
    if m <= 1 {
        0
    } else {
        days_before_month(y, m - 1) + month_days(y, m - 1)
    }
}

/// The calendar date and time (UTC) of a Unix time: year, month, day, hour, minute,
/// second.
pub open spec fn is_civil_time(secs: nat, t: (u64, u64, u64, u64, u64, u64)) -> bool {
    let days = secs / 86400;
    &&& t.0 >= 1970
    &&& 1 <= t.1 <= 12
    &&& 1 <= t.2 <= month_days(t.0 as int, t.1 as int)
    &&& days_before_year(t.0 as int) + days_before_month(t.0 as int, t.1 as int) + t.2 - 1 == days
    &&& t.3 == (secs / 3600) % 24
    &&& t.4 == (secs / 60) % 60
    &&& t.5 == secs % 60
}

/// 400 Gregorian years hold 146097 days.
proof fn lemma_cycle(y: int)
    ensures
        days_before_year(y + 400) == days_before_year(y) + 146097,
{
    assert((y + 399) / 4 == (y - 1) / 4 + 100);
    assert((y + 399) / 100 == (y - 1) / 100 + 4);
    assert((y + 399) / 400 == (y - 1) / 400 + 1);
}

/// `c` cycles of 400 years after 1970 hold `146097 * c` days.
proof fn lemma_cycles(c: nat)
    ensures
        days_before_year(1970 + 400 * (c as int)) == 146097 * (c as int),
    decreases c,
{
    if c > 0 {
        lemma_cycles((c - 1) as nat);
        lemma_cycle(1970 + 400 * (c - 1));
    }
}

/// A year holds `year_days` days.
proof fn lemma_year_step(y: int)
    ensures
        days_before_year(y + 1) == days_before_year(y) + year_days(y),
{
    assert(y / 4 - (y - 1) / 4 == (if y % 4 == 0 { 1int } else { 0int }));
    assert(y / 100 - (y - 1) / 100 == (if y % 100 == 0 { 1int } else { 0int }));
    assert(y / 400 - (y - 1) / 400 == (if y % 400 == 0 { 1int } else { 0int }));
}

/// The months of a year add up to the year.
proof fn lemma_months_of_year(y: int)
    ensures
        days_before_month(y, 13) == year_days(y),
{
    reveal_with_fuel(days_before_month, 13);
}

/// The days of year `y`.
fn year_days_exec(y: u64) -> (d: u64)
    ensures
        d == year_days(y as int),
{
    if (y % 4 == 0 && y % 100 != 0) || y % 400 == 0 {
        366
    } else {
        365
    }
}

/// The days of month `m` of year `y`.
fn month_days_exec(y: u64, m: u64) -> (d: u64)
    ensures
        d == month_days(y as int, m as int),
{
    if m == 2 {
        if (y % 4 == 0 && y % 100 != 0) || y % 400 == 0 {
            29
        } else {
            28
        }
    } else if m == 4 || m == 6 || m == 9 || m == 11 {
        30
    } else {
        31
    }
}

/// Converts Unix seconds to (year, month, day, hour, minute, second) in UTC.
pub fn unix_to_ymdhms(secs: u64) -> (t: (u64, u64, u64, u64, u64, u64))
    ensures
        is_civil_time(secs as nat, t),
{
    let s = secs % 60;
    let m = (secs / 60) % 60;
    let h = (secs / 3600) % 24;
    let days = secs / 86400;
    let cycles = days / 146097;
    let mut rem = days % 146097;
    proof {
        assert(cycles <= 0xffff_ffff_ffff_ffffu64 / 86400 / 146097);
    }
    let mut y: u64 = 1970 + 400 * cycles;
    proof {
        lemma_cycles(cycles as nat);
    }
    let y0 = y;
    let rem0 = rem;
    while rem >= year_days_exec(y)
        invariant
            y0 == 1970 + 400 * cycles,
            y >= y0,
            cycles <= 0xffff_ffff_ffff_ffffu64 / 86400 / 146097,
            rem0 < 146097,
            365 * (y - y0) + rem <= rem0,
            days_before_year(y as int) + rem == days,
        decreases rem,
    {
        proof {
            lemma_year_step(y as int);
        }
        rem = rem - year_days_exec(y);
        y = y + 1;
    }
    proof {
        lemma_months_of_year(y as int);
    }
    let mut mo: u64 = 1;
    while rem >= month_days_exec(y, mo)
        invariant
            1 <= mo <= 12,
            rem < year_days(y as int) - days_before_month(y as int, mo as int),
            days_before_month(y as int, 13) == year_days(y as int),
            days_before_year(y as int) + days_before_month(y as int, mo as int) + rem == days,
        decreases 12 - mo,
    {
        proof {
            if mo == 12 {
                assert(days_before_month(y as int, 13) == days_before_month(y as int, 12) + month_days(y as int, 12));
            }
        }
        rem = rem - month_days_exec(y, mo);
        mo = mo + 1;
    }
    (y, mo, rem + 1, h, m, s)
}

/// `YYYY-MM-DDTHH:MM:SS.mmmZ` for a Unix time in seconds and milliseconds.
pub open spec fn iso8601(secs: nat, millis: nat, t: (u64, u64, u64, u64, u64, u64)) -> Seq<char> {
    decimal_padded(t.0 as nat, 4) + "-"@ + decimal_padded(t.1 as nat, 2) + "-"@ + decimal_padded(t.2 as nat, 2)
        + "T"@ + decimal_padded(t.3 as nat, 2) + ":"@ + decimal_padded(t.4 as nat, 2) + ":"@
        + decimal_padded(t.5 as nat, 2) + "."@ + decimal_padded(millis, 3) + "Z"@
}

/// Formats a Unix time as an ISO 8601 UTC time stamp with milliseconds.
pub fn format_iso8601(secs: u64, millis: u64) -> (r: String)
    ensures
        exists|t: (u64, u64, u64, u64, u64, u64)| is_civil_time(secs as nat, t) && r@ == iso8601(secs as nat, millis as nat, t),
{
    let t = unix_to_ymdhms(secs);
    let (y, mo, d, h, mi, s) = t;
    let mut r = string_of(&decimal_padded_chars(y, 4));
    r.append("-");
    r.append(string_of(&decimal_padded_chars(mo, 2)).as_str());
    r.append("-");
    r.append(string_of(&decimal_padded_chars(d, 2)).as_str());
    r.append("T");
    r.append(string_of(&decimal_padded_chars(h, 2)).as_str());
    r.append(":");
    r.append(string_of(&decimal_padded_chars(mi, 2)).as_str());
    r.append(":");
    r.append(string_of(&decimal_padded_chars(s, 2)).as_str());
    r.append(".");
    r.append(string_of(&decimal_padded_chars(millis, 3)).as_str());
    r.append("Z");
    proof {
        assert(r@ =~= iso8601(secs as nat, millis as nat, t));
    }
    r
}

/// A reading of the system clock (std's `SystemTime`), carried through unread.
#[verifier::external_type_specification]
#[verifier::external_body]
pub struct ExSystemTime(std::time::SystemTime);

/// The system clock's current reading (std's `SystemTime::now`); nothing is claimed of it.
#[verifier::external_body]
fn clock_now() -> (t: std::time::SystemTime) {
    std::time::SystemTime::now()
}

/// The time from the Unix epoch to the reading `t` (std's `SystemTime::duration_since`
/// with `UNIX_EPOCH`); none when `t` lies before the epoch. Nothing more is claimed of it.
#[verifier::external_body]
fn since_unix_epoch(t: &std::time::SystemTime) -> (d: Option<std::time::Duration>) {
    t.duration_since(std::time::UNIX_EPOCH).ok()
}

/// The whole seconds of `d` (std's `Duration::as_secs`); nothing is claimed of the value.
#[verifier::external_body]
fn whole_seconds(d: &std::time::Duration) -> (s: u64) {
    d.as_secs()
}

/// The milliseconds of `d` past its whole seconds (std's `Duration::subsec_millis`),
/// which std documents as below one thousand.
#[verifier::external_body]
fn millis_past_second(d: &std::time::Duration) -> (m: u32)
    ensures
        m < 1000,
{
    d.subsec_millis()
}

/// The current time as whole seconds and milliseconds since the Unix epoch; zero when the
/// clock reads a time before the epoch.
fn unix_time_now() -> (r: (u64, u64))
    ensures
        r.1 < 1000,
{
    let now = clock_now();
    match since_unix_epoch(&now) {
        Some(d) => (whole_seconds(&d), millis_past_second(&d) as u64),
        None => (0, 0),
    }
}

/// The current UTC time as an ISO 8601 time stamp with milliseconds.
pub fn now_iso8601() -> (r: String)
    ensures
        exists|secs: nat, millis: nat, t: (u64, u64, u64, u64, u64, u64)|
            millis < 1000 && is_civil_time(secs, t) && r@ == iso8601(secs, millis, t),
{
    let (secs, millis) = unix_time_now();
    format_iso8601(secs, millis)
}

impl CommentNote {
    /// A new note by the user, created now, not yet sent.
    pub fn new_user(id: String, text: String, is_old: bool) -> (n: CommentNote)
        ensures
            n.id@ == id@,
            n.text@ == text@,
            n.is_old == is_old,
            n.source == NoteSource::User,
            n.author@ == "user"@,
            exists|secs: nat, millis: nat, t: (u64, u64, u64, u64, u64, u64)|
                millis < 1000 && is_civil_time(secs, t) && n.created_at@ == iso8601(secs, millis, t),
            n.status == NoteStatus::New,
            n.tags@.len() == 0,
            n.confidence is None,
            n.rationale is None,
    {
        CommentNote {
            id,
            text,
            is_old,
            source: NoteSource::User,
            author: owned("user"),
            created_at: now_iso8601(),
            status: NoteStatus::New,
            tags: Vec::new(),
            confidence: None,
            rationale: None,
        }
    }
}

} // verus!

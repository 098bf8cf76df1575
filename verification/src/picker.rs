use vstd::prelude::*;

use crate::text::{chars_of, contains_exec, contains_seq, lowercase_of, string_of, to_lowercase, trim, trim_exec};
use crate::ui::{HelpEntry, HelpSection, ListPickerItem};

verus! {

// ---------------------------------------------------------------------------
// The ref picker: a searchable list of refs grouped under category headers
// ---------------------------------------------------------------------------

/// The category of the item that stands for the typed text itself.
pub open spec fn raw_ref_category() -> Seq<char> {
    "[ref]"@
}

/// An item as the (value, label, category) it shows.
pub open spec fn item_view(it: ListPickerItem) -> (Seq<char>, Seq<char>, Seq<char>) {
    (it.value@, it.label@, it.category@)
}

/// The items as the (value, label, category) they show.
pub open spec fn items_view(items: Seq<ListPickerItem>) -> Seq<(Seq<char>, Seq<char>, Seq<char>)> {
    items.map_values(|it: ListPickerItem| item_view(it))
}

/// Item `k` begins a new category, and so gets a header row above it: its category
/// differs from the one before it (from the empty one, for the first item).
pub open spec fn starts_group(items: Seq<ListPickerItem>, k: int) -> bool {
    if k == 0 {
        items[0].category@ != Seq::<char>::empty()
    } else {
        items[k].category@ != items[k - 1].category@
    }
}

/// Number of header rows among the first `n` items.
pub open spec fn headers_before(items: Seq<ListPickerItem>, n: int) -> nat
    decreases n,
{
    if n <= 0 {
        0
    } else {
        headers_before(items, n - 1) + if starts_group(items, n - 1) {
            1nat
        } else {
            0nat
        }
    }
}

/// The row at which item `sel` is drawn, header rows counted; past the end, the row
/// after the last item.
pub open spec fn display_row(items: Seq<ListPickerItem>, sel: int) -> int {
    if 0 <= sel < items.len() {
        sel + headers_before(items, sel + 1)
    } else {
        (items.len() + headers_before(items, items.len() as int)) as int
    }
}

proof fn lemma_headers_bound(items: Seq<ListPickerItem>, n: int)
    requires
        0 <= n,
    ensures
        headers_before(items, n) <= n,
    decreases n,
{
    if n > 0 {
        lemma_headers_bound(items, n - 1);
    }
}

/// The row at which item `sel` is drawn (see `display_row`).
pub fn display_index(items: &Vec<ListPickerItem>, sel: usize) -> (r: usize)
    requires
        items@.len() <= usize::MAX / 2,
    ensures
        r == display_row(items@, sel as int),
{
    let mut di: usize = 0;
    let mut i: usize = 0;
    while i < items.len()
        invariant
            i <= items@.len() <= usize::MAX / 2,
            i <= sel,
            di == i + headers_before(items@, i as int),
        decreases items@.len() - i,
    {
        proof {
            lemma_headers_bound(items@, i + 1);
        }
        let starts = if i == 0 {
            !items[0].category.as_str().is_empty()
        } else {
            items[i].category != items[i - 1].category
        };
        proof {
            if i == 0 {
                assert(items@[0].category@.len() == 0 ==> items@[0].category@ =~= Seq::<char>::empty());
            }
        }
        if starts {
            di = di + 1;
        }
        if i == sel {
            return di;
        }
        di = di + 1;
        i = i + 1;
    }
    di
}

/// Rows of the picker's list on a terminal `height` rows high: the popup takes 60% of
/// it, at least 10 rows and at most all but 4, less 2 border rows and 3 rows of search
/// field, separator and hint.
pub open spec fn list_rows(height: int) -> int {
    let h = height * 60 / 100;
    let at_least = if h < 10 {
        10
    } else {
        h
    };
    let room = if height >= 4 {
        height - 4
    } else {
        0
    };
    let popup = if at_least < room {
        at_least
    } else {
        room
    };
    if popup >= 5 {
        popup - 5
    } else {
        0
    }
}

/// Rows of the picker's list on a terminal `height` rows high (see `list_rows`).
pub fn list_height(height: u16) -> (r: usize)
    ensures
        r == list_rows(height as int),
{
    let h = height as usize;
    let p = h * 60 / 100;
    let at_least = if p < 10 {
        10
    } else {
        p
    };
    let room = h.saturating_sub(4);
    let popup = if at_least < room {
        at_least
    } else {
        room
    };
    popup.saturating_sub(5)
}

/// The first row shown after moving the selection down to row `row`: scrolled so that
/// the row is the last of the `height` shown when it lies below them.
pub open spec fn scroll_after_down(row: int, scroll: int, height: int) -> int {
    if row >= scroll + height {
        row - (height - 1)
    } else {
        scroll
    }
}

/// The first row shown after moving the selection up to the entry `selected` drawn at
/// row `row`: the top for the first entry, else the row above it when the row is at or
/// above the first shown.
pub open spec fn scroll_after_up(selected: int, row: int, scroll: int) -> int {
    if selected == 0 {
        0
    } else if row <= scroll {
        if row > 0 {
            row - 1
        } else {
            0
        }
    } else {
        scroll
    }
}

/// The state of the ref picker: its items, the selected one and the first row shown.
pub struct RefPicker {
    pub items: Vec<ListPickerItem>,
    pub selected: usize,
    pub scroll_offset: usize,
}

/// The first item from position 1 on whose lowercase label or value holds `q`, as an
/// index into the items; none found, 0.
pub open spec fn best_match(items: Seq<ListPickerItem>, q: Seq<char>) -> int {
    if exists|k: int| 1 <= k < items.len() && item_matches(items[k], q) {
        choose|k: int|
            1 <= k < items.len() && item_matches(items[k], q) && forall|j: int| 1 <= j < k ==> !item_matches(items[j], q)
    } else {
        0
    }
}

/// The item's lowercase label or value holds `q`.
pub open spec fn item_matches(it: ListPickerItem, q: Seq<char>) -> bool {
    contains_seq(lowercase_of(it.label@), q) || contains_seq(lowercase_of(it.value@), q)
}

/// The items, as they show, once the search text is `search`: without a leading
/// typed-text item, and, when the lowercase search is not empty, with a new one for the
/// trimmed search in front.
pub open spec fn items_for_search(items: Seq<(Seq<char>, Seq<char>, Seq<char>)>, search: Seq<char>) -> Seq<
    (Seq<char>, Seq<char>, Seq<char>),
> {
    let kept = if items.len() > 0 && items[0].2 == raw_ref_category() {
        items.drop_first()
    } else {
        items
    };
    if lowercase_of(search).len() == 0 {
        kept
    } else {
        seq![(trim(search), trim(search), raw_ref_category())] + kept
    }
}

/// A new search replaces the typed-text item of the one before instead of stacking on
/// it: searching for `first` and then for `second` leaves the items as searching for
/// `second` alone does, on a list that had no typed-text item in front.
pub proof fn lemma_search_replaces_typed_item(
    items: Seq<(Seq<char>, Seq<char>, Seq<char>)>,
    first: Seq<char>,
    second: Seq<char>,
)
    requires
        items.len() == 0 || items[0].2 != raw_ref_category(),
    ensures
        items_for_search(items_for_search(items, first), second) == items_for_search(items, second),
{
    let once = items_for_search(items, first);
    if lowercase_of(first).len() > 0 {
        assert(once.drop_first() =~= items);
    }
}

impl RefPicker {
    /// The picker's state is usable: the selection lies within the items, or is 0, and
    /// the list is far from `usize`'s limit (a list of that size cannot be held).
    pub open spec fn well_formed(&self) -> bool {
        &&& self.items@.len() < usize::MAX / 2
        &&& (self.selected < self.items@.len() || self.selected == 0)
    }

    /// A picker over `items`, the first selected and shown.
    pub fn new(items: Vec<ListPickerItem>) -> (p: RefPicker)
        requires
            items@.len() < usize::MAX / 2,
        ensures
            p.items@ == items@,
            p.selected == 0,
            p.scroll_offset == 0,
            p.well_formed(),
    {
        RefPicker { items, selected: 0, scroll_offset: 0 }
    }

    /// Moves the selection one item down, stopping at the last, and scrolls so that its
    /// row is within the `list_height` rows shown.
    pub fn move_down(&mut self, list_height: usize)
        requires
            old(self).well_formed(),
            list_height > 0,
            old(self).scroll_offset + list_height <= usize::MAX,
        ensures
            final(self).well_formed(),
            final(self).items@ == old(self).items@,
            final(self).selected == (if old(self).items@.len() > 0 {
                if old(self).selected + 1 < old(self).items@.len() {
                    old(self).selected + 1
                } else {
                    old(self).items@.len() - 1
                }
            } else {
                old(self).selected as int
            }),
            final(self).scroll_offset == scroll_after_down(
                display_row(final(self).items@, final(self).selected as int),
                old(self).scroll_offset as int,
                list_height as int,
            ),
    {
        let total = self.items.len();
        if total > 0 {
            self.selected = if self.selected + 1 < total {
                self.selected + 1
            } else {
                total - 1
            };
        }
        let row = display_index(&self.items, self.selected);
        proof {
            lemma_headers_bound(self.items@, self.selected + 1);
            lemma_headers_bound(self.items@, self.items@.len() as int);
        }
        if row >= self.scroll_offset + list_height {
            self.scroll_offset = row.saturating_sub(list_height - 1);
        }
    }

    /// Moves the selection one item up, stopping at the first; back at the first the
    /// list shows from the top, else it scrolls so that the row above the selection's
    /// is shown when the selection's row is at or above the first shown.
    pub fn move_up(&mut self)
        requires
            old(self).well_formed(),
        ensures
            final(self).well_formed(),
            final(self).items@ == old(self).items@,
            final(self).selected == (if old(self).selected > 0 {
                old(self).selected - 1
            } else {
                0
            }),
            final(self).scroll_offset == scroll_after_up(
                final(self).selected as int,
                display_row(final(self).items@, final(self).selected as int),
                old(self).scroll_offset as int,
            ),
    {
        self.selected = self.selected.saturating_sub(1);
        if self.selected == 0 {
            self.scroll_offset = 0;
        } else {
            let row = display_index(&self.items, self.selected);
            if row <= self.scroll_offset {
                self.scroll_offset = row.saturating_sub(1);
            }
        }
    }

    /// The mouse wheel turned up: the selection moves three items up, stopping at the
    /// first, and the list scrolls up to it when it is above the first row shown.
    pub fn wheel_up(&mut self)
        requires
            old(self).well_formed(),
        ensures
            final(self).well_formed(),
            final(self).items@ == old(self).items@,
            final(self).selected == (if old(self).selected >= 3 {
                old(self).selected - 3
            } else {
                0
            }),
            final(self).scroll_offset == (if final(self).selected < old(self).scroll_offset {
                final(self).selected
            } else {
                old(self).scroll_offset
            }),
    {
        self.selected = self.selected.saturating_sub(3);
        if self.selected < self.scroll_offset {
            self.scroll_offset = self.selected;
        }
    }

    /// The mouse wheel turned down: the selection moves three items down, stopping at the
    /// last, and the list scrolls as on a move down.
    pub fn wheel_down(&mut self, list_height: usize)
        requires
            old(self).well_formed(),
            list_height > 0,
            old(self).scroll_offset + list_height <= usize::MAX,
        ensures
            final(self).well_formed(),
            final(self).items@ == old(self).items@,
            final(self).selected == (if old(self).selected + 3 < old(self).items@.len() {
                old(self).selected + 3
            } else if old(self).items@.len() > 0 {
                old(self).items@.len() - 1
            } else {
                0
            }),
            final(self).scroll_offset == scroll_after_down(
                display_row(final(self).items@, final(self).selected as int),
                old(self).scroll_offset as int,
                list_height as int,
            ),
    {
        let last = self.items.len().saturating_sub(1);
        self.selected = if self.selected + 3 < last {
            self.selected + 3
        } else {
            last
        };
        let row = display_index(&self.items, self.selected);
        if row >= self.scroll_offset + list_height {
            self.scroll_offset = row.saturating_sub(list_height - 1);
        }
    }

    /// Takes in a changed search text: drops the item standing for the old text, and when
    /// the lowercase text is not empty puts one for the trimmed text in front, selects the
    /// first other item whose lowercase label or value holds it (that item, else the new
    /// one) and scrolls so that its row is centred; when it is empty, selects and shows
    /// the first item.
    pub fn search_changed(&mut self, search: &str, list_height: usize)
        requires
            old(self).well_formed(),
            old(self).items@.len() + 1 < usize::MAX / 2,
        ensures
            final(self).well_formed(),
            items_view(final(self).items@) == items_for_search(items_view(old(self).items@), search@),
            lowercase_of(search@).len() == 0 ==> final(self).selected == 0 && final(self).scroll_offset == 0,
            lowercase_of(search@).len() > 0 ==> {
                let row = display_row(final(self).items@, final(self).selected as int);
                &&& final(self).selected == best_match(final(self).items@, lowercase_of(search@))
                &&& final(self).scroll_offset == if row >= list_height / 2 {
                    row - list_height / 2
                } else {
                    0
                }
            },
    {
        let ghost old_items = self.items@;
        let tag = chars_of("[ref]");
        if self.items.len() > 0 && crate::text::chars_eq(&chars_of(self.items[0].category.as_str()), &tag) {
            self.items.remove(0);
            proof {
                assert(items_view(self.items@) =~= items_view(old_items.drop_first()));
            }
        }
        let ghost kept = self.items@;
        let lower = to_lowercase(search);
        if lower.as_str().is_empty() {
            self.selected = 0;
            self.scroll_offset = 0;
            return;
        }
        let t = trim_exec(&chars_of(search));
        let item = ListPickerItem { value: string_of(&t), label: string_of(&t), category: crate::text::owned("[ref]") };
        self.items.insert(0, item);
        proof {
            assert(items_view(self.items@) =~= seq![(trim(search@), trim(search@), raw_ref_category())] + items_view(
                kept,
            ));
        }
        let q = chars_of(lower.as_str());
        let mut k: usize = 1;
        let mut found = false;
        while k < self.items.len() && !found
            invariant
                1 <= k <= self.items@.len(),
                q@ == lowercase_of(search@),
                found ==> k < self.items@.len() && item_matches(self.items@[k as int], q@),
                forall|j: int| 1 <= j < k ==> !item_matches(self.items@[j], q@),
            decreases self.items@.len() - k, if found { 0int } else { 1int },
        {
            let l = chars_of(to_lowercase(self.items[k].label.as_str()).as_str());
            let v = chars_of(to_lowercase(self.items[k].value.as_str()).as_str());
            if contains_exec(&l, &q) || contains_exec(&v, &q) {
                found = true;
            } else {
                k = k + 1;
            }
        }
        proof {
            let its = self.items@;
            if found {
                let c = choose|c: int|
                    1 <= c < its.len() && item_matches(its[c], q@) && forall|j: int| 1 <= j < c ==> !item_matches(its[j], q@);
                assert(1 <= c < its.len() && item_matches(its[c], q@) && forall|j: int| 1 <= j < c ==> !item_matches(its[j], q@));
                if c < k {
                } else if k < c {
                    assert(!item_matches(its[k as int], q@));
                }
                assert(best_match(its, q@) == k);
            } else {
                assert(!exists|c: int| 1 <= c < its.len() && item_matches(its[c], q@));
            }
        }
        self.selected = if found {
            k
        } else {
            0
        };
        let row = display_index(&self.items, self.selected);
        self.scroll_offset = row.saturating_sub(list_height / 2);
    }

    /// The ref that confirming picks: the selected item's value, else the trimmed search
    /// text when it is not blank, else none.
    pub fn confirm_value(&self, search: &str) -> (r: Option<String>)
        ensures
            self.selected < self.items@.len() ==> (r matches Some(v) && v@ == self.items@[self.selected as int].value@),
            self.selected >= self.items@.len() && trim(search@).len() > 0 ==> (r matches Some(v) && v@ == trim(search@)),
            self.selected >= self.items@.len() && trim(search@).len() == 0 ==> r is None,
    {
        if self.selected < self.items.len() {
            Some(crate::text::owned(self.items[self.selected].value.as_str()))
        } else {
            let t = trim_exec(&chars_of(search));
            if t.len() > 0 {
                Some(string_of(&t))
            } else {
                None
            }
        }
    }
}

// ---------------------------------------------------------------------------
// The help popup: key bindings under section headers, filtered by a search
// ---------------------------------------------------------------------------

/// An entry shows under the lowercase search `q` when `q` is empty or the entry's
/// lowercase key or description holds it.
pub open spec fn entry_shown(e: HelpEntry, q: Seq<char>) -> bool {
    q.len() == 0 || contains_seq(lowercase_of(e.key@), q) || contains_seq(lowercase_of(e.description@), q)
}

/// Number of entries among the first `n` that show under `q`.
pub open spec fn shown_count(entries: Seq<HelpEntry>, q: Seq<char>, n: int) -> nat
    decreases n,
{
    if n <= 0 {
        0
    } else {
        shown_count(entries, q, n - 1) + if entry_shown(entries[n - 1], q) {
            1nat
        } else {
            0nat
        }
    }
}

/// Entries of a section that show under `q`.
pub open spec fn section_shown(sec: HelpSection, q: Seq<char>) -> nat {
    shown_count(sec.entries@, q, sec.entries@.len() as int)
}

/// Rows a section takes under `q`: its shown entries and a header, or none at all.
pub open spec fn section_rows(sec: HelpSection, q: Seq<char>) -> nat {
    if section_shown(sec, q) > 0 {
        section_shown(sec, q) + 1
    } else {
        0
    }
}

/// Entries of all sections that show under `q`.
pub open spec fn help_shown(secs: Seq<HelpSection>, q: Seq<char>) -> nat
    decreases secs.len(),
{
    if secs.len() == 0 {
        0
    } else {
        section_shown(secs[0], q) + help_shown(secs.drop_first(), q)
    }
}

/// Rows of all sections under `q`.
pub open spec fn help_rows(secs: Seq<HelpSection>, q: Seq<char>) -> nat
    decreases secs.len(),
{
    if secs.len() == 0 {
        0
    } else {
        section_rows(secs[0], q) + help_rows(secs.drop_first(), q)
    }
}

/// The row at which the shown entry `sel` (counting shown entries only) is drawn,
/// headers counted; past the last, the row after everything.
pub open spec fn help_row(secs: Seq<HelpSection>, sel: int, q: Seq<char>) -> int
    decreases secs.len(),
{
    if secs.len() == 0 {
        0
    } else if sel < section_shown(secs[0], q) {
        1 + sel
    } else {
        section_rows(secs[0], q) + help_row(secs.drop_first(), sel - section_shown(secs[0], q), q)
    }
}

proof fn lemma_shown_count_bound(entries: Seq<HelpEntry>, q: Seq<char>, n: int)
    requires
        0 <= n,
    ensures
        shown_count(entries, q, n) <= n,
    decreases n,
{
    if n > 0 {
        lemma_shown_count_bound(entries, q, n - 1);
    }
}

proof fn lemma_help_split(secs: Seq<HelpSection>, q: Seq<char>, s: int)
    requires
        0 <= s < secs.len(),
    ensures
        help_rows(secs.take(s + 1), q) == help_rows(secs.take(s), q) + section_rows(secs[s], q),
        help_shown(secs.take(s + 1), q) == help_shown(secs.take(s), q) + section_shown(secs[s], q),
        help_rows(secs.take(s + 1), q) <= help_rows(secs, q),
    decreases s,
{
    if s == 0 {
        assert(secs.take(1).drop_first() =~= Seq::<HelpSection>::empty());
        assert(secs.take(0) =~= Seq::<HelpSection>::empty());
        lemma_help_rows_prefix(secs, q, 1);
    } else {
        lemma_help_split(secs.drop_first(), q, s - 1);
        assert(secs.take(s + 1).drop_first() =~= secs.drop_first().take(s));
        assert(secs.take(s).drop_first() =~= secs.drop_first().take(s - 1));
        lemma_help_rows_prefix(secs, q, s + 1);
    }
}

proof fn lemma_help_rows_prefix(secs: Seq<HelpSection>, q: Seq<char>, n: int)
    requires
        0 <= n <= secs.len(),
    ensures
        help_rows(secs.take(n), q) <= help_rows(secs, q),
    decreases n,
{
    if n == 0 {
        assert(secs.take(0) =~= Seq::<HelpSection>::empty());
    } else {
        lemma_help_rows_prefix(secs.drop_first(), q, n - 1);
        assert(secs.take(n).drop_first() =~= secs.drop_first().take(n - 1));
    }
}

/// Whether entry `e` shows under the lowercase search `q`.
fn entry_matches(e: &HelpEntry, q: &Vec<char>) -> (b: bool)
    ensures
        b == entry_shown(*e, q@),
{
    if q.len() == 0 {
        return true;
    }
    let k = chars_of(to_lowercase(e.key.as_str()).as_str());
    let d = chars_of(to_lowercase(e.description.as_str()).as_str());
    contains_exec(&k, q) || contains_exec(&d, q)
}

/// The number of entries that show under the lowercase search `search_lower`.
pub fn help_visible_count(sections: &Vec<HelpSection>, search_lower: &str) -> (r: usize)
    requires
        help_rows(sections@, search_lower@) <= usize::MAX,
    ensures
        r == help_shown(sections@, search_lower@),
{
    let q = chars_of(search_lower);
    let ghost secs = sections@;
    let mut total: usize = 0;
    let mut s: usize = 0;
    proof {
        assert(secs.take(0) =~= Seq::<HelpSection>::empty());
    }
    while s < sections.len()
        invariant
            s <= secs.len(),
            secs == sections@,
            q@ == search_lower@,
            help_rows(secs, q@) <= usize::MAX,
            total == help_shown(secs.take(s as int), q@),
            help_shown(secs.take(s as int), q@) <= help_rows(secs.take(s as int), q@),
        decreases secs.len() - s,
    {
        proof {
            lemma_help_split(secs, q@, s as int);
        }
        let entries = &sections[s].entries;
        let mut j: usize = 0;
        let mut c: usize = 0;
        while j < entries.len()
            invariant
                j <= entries@.len(),
                q@ == search_lower@,
                c == shown_count(entries@, q@, j as int),
                c <= j,
            decreases entries@.len() - j,
        {
            if entry_matches(&entries[j], &q) {
                c = c + 1;
            }
            j = j + 1;
        }
        total = total + c;
        s = s + 1;
    }
    proof {
        assert(secs.take(secs.len() as int) =~= secs);
    }
    total
}

/// The number of rows the help list takes under the lowercase search `search_lower`.
pub fn help_row_count(sections: &Vec<HelpSection>, search_lower: &str) -> (r: usize)
    requires
        help_rows(sections@, search_lower@) <= usize::MAX,
    ensures
        r == help_rows(sections@, search_lower@),
{
    let q = chars_of(search_lower);
    let ghost secs = sections@;
    let mut total: usize = 0;
    let mut s: usize = 0;
    proof {
        assert(secs.take(0) =~= Seq::<HelpSection>::empty());
    }
    while s < sections.len()
        invariant
            s <= secs.len(),
            secs == sections@,
            q@ == search_lower@,
            help_rows(secs, q@) <= usize::MAX,
            total == help_rows(secs.take(s as int), q@),
        decreases secs.len() - s,
    {
        proof {
            lemma_help_split(secs, q@, s as int);
        }
        let entries = &sections[s].entries;
        let mut j: usize = 0;
        let mut c: usize = 0;
        while j < entries.len()
            invariant
                j <= entries@.len(),
                q@ == search_lower@,
                c == shown_count(entries@, q@, j as int),
                c <= j,
            decreases entries@.len() - j,
        {
            if entry_matches(&entries[j], &q) {
                c = c + 1;
            }
            j = j + 1;
        }
        total = total + if c > 0 {
            c + 1
        } else {
            0
        };
        s = s + 1;
    }
    proof {
        assert(secs.take(secs.len() as int) =~= secs);
    }
    total
}

/// The row at which the shown entry `sel` is drawn under the lowercase search
/// `search_lower` (see `help_row`).
pub fn help_display_index(sections: &Vec<HelpSection>, sel: usize, search_lower: &str) -> (r: usize)
    requires
        help_rows(sections@, search_lower@) <= usize::MAX,
    ensures
        r == help_row(sections@, sel as int, search_lower@),
{
    let q = chars_of(search_lower);
    let ghost secs = sections@;
    let mut ei: usize = 0;
    let mut di: usize = 0;
    let mut s: usize = 0;
    proof {
        assert(secs.take(0) =~= Seq::<HelpSection>::empty());
        assert(secs.skip(0) =~= secs);
    }
    while s < sections.len()
        invariant
            s <= secs.len(),
            secs == sections@,
            q@ == search_lower@,
            help_rows(secs, q@) <= usize::MAX,
            ei == help_shown(secs.take(s as int), q@),
            di == help_rows(secs.take(s as int), q@),
            ei <= sel,
            help_row(secs, sel as int, q@) == di + help_row(secs.skip(s as int), sel - ei, q@),
        decreases secs.len() - s,
    {
        proof {
            lemma_help_split(secs, q@, s as int);
            assert(secs.skip(s as int)[0] == secs[s as int]);
            assert(secs.skip(s as int).drop_first() =~= secs.skip(s + 1));
        }
        let entries = &sections[s].entries;
        let mut j: usize = 0;
        let mut c: usize = 0;
        while j < entries.len()
            invariant
                j <= entries@.len(),
                s < secs.len(),
                secs == sections@,
                entries@ == secs[s as int].entries@,
                q@ == search_lower@,
                c == shown_count(entries@, q@, j as int),
                c <= section_shown(secs[s as int], q@),
                ei + c <= sel,
                di + (if c > 0 { c + 1 } else { 0 }) <= help_rows(secs.take(s + 1), q@),
                help_rows(secs.take(s + 1), q@) <= usize::MAX,
                help_rows(secs.take(s + 1), q@) == di + section_rows(secs[s as int], q@),
                help_row(secs, sel as int, q@) == di + help_row(secs.skip(s as int), sel - ei, q@),
                secs.skip(s as int)[0] == secs[s as int],
            decreases entries@.len() - j,
        {
            proof {
                lemma_shown_count_bound(entries@, q@, j as int);
                lemma_shown_mono(entries@, q@, j + 1, entries@.len() as int);
            }
            if entry_matches(&entries[j], &q) {
                if ei + c == sel {
                    proof {
                        assert(shown_count(entries@, q@, j + 1) == c + 1);
                        assert(c < section_shown(secs[s as int], q@));
                        assert(secs.skip(s as int).len() > 0);
                        assert(help_row(secs.skip(s as int), sel - ei, q@) == 1 + c);
                    }
                    let r = di + 1 + c;
                    return r;
                }
                c = c + 1;
            }
            j = j + 1;
        }
        ei = ei + c;
        di = di + if c > 0 {
            c + 1
        } else {
            0
        };
        s = s + 1;
    }
    proof {
        assert(secs.skip(s as int).len() == 0);
    }
    di
}

proof fn lemma_shown_mono(entries: Seq<HelpEntry>, q: Seq<char>, i: int, n: int)
    requires
        0 <= i <= n,
    ensures
        shown_count(entries, q, i) <= shown_count(entries, q, n),
    decreases n - i,
{
    if i < n {
        lemma_shown_mono(entries, q, i, n - 1);
    }
}

/// Rows of the help list on a terminal `height` rows high: the popup takes all but 4
/// rows, at most 50, less 5 rows of borders, search field, separator and hint.
pub open spec fn help_list_rows(height: int) -> int {
    let room = if height >= 4 {
        height - 4
    } else {
        0
    };
    let popup = if room < 50 {
        room
    } else {
        50
    };
    if popup >= 5 {
        popup - 5
    } else {
        0
    }
}

/// Rows of the help list on a terminal `height` rows high (see `help_list_rows`).
pub fn help_list_height(height: u16) -> (r: usize)
    ensures
        r == help_list_rows(height as int),
{
    let room = (height as usize).saturating_sub(4);
    let popup = if room < 50 {
        room
    } else {
        50
    };
    popup.saturating_sub(5)
}

/// The state of the help popup: its sections, the selected shown entry and the first
/// row shown.
pub struct HelpPopup {
    pub sections: Vec<HelpSection>,
    pub selected: usize,
    pub scroll_offset: usize,
}

impl HelpPopup {
    /// A help popup over `sections`, the first entry selected and shown.
    pub fn new(sections: Vec<HelpSection>) -> (p: HelpPopup)
        ensures
            p.sections@ == sections@,
            p.selected == 0,
            p.scroll_offset == 0,
    {
        HelpPopup { sections, selected: 0, scroll_offset: 0 }
    }

    /// Moves the selection one shown entry down, stopping at the last, and scrolls so
    /// that its row is within the `list_height` rows shown.
    pub fn move_down(&mut self, search_lower: &str, list_height: usize)
        requires
            help_rows(old(self).sections@, search_lower@) <= usize::MAX,
            old(self).selected < usize::MAX,
            list_height > 0,
            old(self).scroll_offset + list_height <= usize::MAX,
        ensures
            final(self).sections@ == old(self).sections@,
            ({
                let total = help_shown(old(self).sections@, search_lower@);
                final(self).selected == if total > 0 {
                    if old(self).selected + 1 < total {
                        old(self).selected + 1
                    } else {
                        total - 1
                    }
                } else {
                    old(self).selected as int
                }
            }),
            final(self).scroll_offset == scroll_after_down(
                help_row(final(self).sections@, final(self).selected as int, search_lower@),
                old(self).scroll_offset as int,
                list_height as int,
            ),
    {
        let total = help_visible_count(&self.sections, search_lower);
        if total > 0 {
            self.selected = if self.selected + 1 < total {
                self.selected + 1
            } else {
                total - 1
            };
        }
        let row = help_display_index(&self.sections, self.selected, search_lower);
        if row >= self.scroll_offset + list_height {
            self.scroll_offset = row.saturating_sub(list_height - 1);
        }
    }

    /// Moves the selection one shown entry up, stopping at the first (see
    /// `scroll_after_up` for the scrolling).
    pub fn move_up(&mut self, search_lower: &str)
        requires
            help_rows(old(self).sections@, search_lower@) <= usize::MAX,
        ensures
            final(self).sections@ == old(self).sections@,
            final(self).selected == (if old(self).selected > 0 {
                old(self).selected - 1
            } else {
                0
            }),
            final(self).scroll_offset == scroll_after_up(
                final(self).selected as int,
                help_row(final(self).sections@, final(self).selected as int, search_lower@),
                old(self).scroll_offset as int,
            ),
    {
        self.selected = self.selected.saturating_sub(1);
        if self.selected == 0 {
            self.scroll_offset = 0;
        } else {
            let row = help_display_index(&self.sections, self.selected, search_lower);
            if row <= self.scroll_offset {
                self.scroll_offset = row.saturating_sub(1);
            }
        }
    }

    /// The mouse wheel turned up: the list scrolls three rows up, stopping at the top.
    pub fn wheel_up(&mut self)
        ensures
            final(self).sections@ == old(self).sections@,
            final(self).selected == old(self).selected,
            final(self).scroll_offset == (if old(self).scroll_offset >= 3 {
                old(self).scroll_offset - 3
            } else {
                0
            }),
    {
        self.scroll_offset = self.scroll_offset.saturating_sub(3);
    }

    /// The mouse wheel turned down: the list scrolls three rows down, stopping with the
    /// last row at the top.
    pub fn wheel_down(&mut self, search_lower: &str)
        requires
            help_rows(old(self).sections@, search_lower@) <= usize::MAX,
            old(self).scroll_offset + 3 <= usize::MAX,
        ensures
            final(self).sections@ == old(self).sections@,
            final(self).selected == old(self).selected,
            ({
                let rows = help_rows(old(self).sections@, search_lower@);
                let last = if rows > 0 {
                    rows - 1
                } else {
                    0
                };
                final(self).scroll_offset == if old(self).scroll_offset + 3 < last {
                    old(self).scroll_offset + 3
                } else {
                    last
                }
            }),
    {
        let rows = help_row_count(&self.sections, search_lower);
        let last = rows.saturating_sub(1);
        self.scroll_offset = if self.scroll_offset + 3 < last {
            self.scroll_offset + 3
        } else {
            last
        };
    }

    /// A changed search selects and shows the first entry again.
    pub fn search_changed(&mut self)
        ensures
            final(self).sections@ == old(self).sections@,
            final(self).selected == 0,
            final(self).scroll_offset == 0,
    {
        self.selected = 0;
        self.scroll_offset = 0;
    }
}

} // verus!

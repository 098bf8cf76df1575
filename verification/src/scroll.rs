use vstd::prelude::*;

use vstd::arithmetic::power2::{
    lemma2_to64, lemma2_to64_rest, lemma_pow2_adds, lemma_pow2_pos, lemma_pow2_strictly_increases, lemma_pow2_unfold, pow2,
};

verus! {

/// Where the viewport starts once `selected` has been brought into a window of
/// `visible_height` rows starting at `offset`: unchanged when it is already visible.
pub open spec fn visible_offset(selected: nat, offset: nat, visible_height: nat) -> nat {
    if visible_height == 0 {
        offset
    } else if selected < offset {
        selected
    } else if selected >= offset + visible_height {
        (selected + 1 - visible_height) as nat
    } else {
        offset
    }
}

/// Adjusts `scroll_offset` so that `selected` is visible within `visible_height` rows,
/// scrolling only when it would otherwise be outside the window.
pub fn ensure_visible(selected: usize, scroll_offset: &mut usize, visible_height: usize)
    requires
        visible_height == 0 || selected < *old(scroll_offset) || (*old(scroll_offset) + visible_height
            <= usize::MAX && (selected >= *old(scroll_offset) + visible_height ==> selected
            < usize::MAX)),
    ensures
        *final(scroll_offset) == visible_offset(
            selected as nat,
            *old(scroll_offset) as nat,
            visible_height as nat,
        ),
        visible_height > 0 ==> *final(scroll_offset) <= selected < *final(scroll_offset)
            + visible_height,
{
    if visible_height == 0 {
        return ;
    }
    if selected < *scroll_offset {
        *scroll_offset = selected;
    } else if selected >= *scroll_offset + visible_height {
        *scroll_offset = selected + 1 - visible_height;
    }
}

/// The viewport offset after scrolling by `delta` rows in a list of `list_len` rows:
/// the moved offset clamped to the valid range, from 0 to `list_len - visible_height`
/// (0 when the whole list fits).
pub open spec fn scrolled_offset(offset: nat, delta: int, list_len: nat, visible_height: nat) -> nat {
    if list_len <= visible_height {
        0
    } else {
        let max_offset = list_len - visible_height;
        if offset + delta < 0 {
            0
        } else if offset + delta > max_offset {
            max_offset as nat
        } else {
            (offset + delta) as nat
        }
    }
}

/// Scrolls the viewport by `delta` rows, clamped to the valid range; the selection is
/// not touched.
pub fn scroll_viewport(scroll_offset: &mut usize, delta: isize, list_len: usize, visible_height: usize)
    requires
        list_len <= visible_height || delta < 0 || *old(scroll_offset) + delta <= usize::MAX,
    ensures
        *final(scroll_offset) == scrolled_offset(
            *old(scroll_offset) as nat,
            delta as int,
            list_len as nat,
            visible_height as nat,
        ),
{
    if list_len <= visible_height {
        *scroll_offset = 0;
        return ;
    }
    let max_offset = list_len - visible_height;
    if delta < 0 {
        let back: usize = if delta == isize::MIN {
            (isize::MAX as usize) + 1
        } else {
            (-delta) as usize
        };
        let moved = if *scroll_offset < back {
            0
        } else {
            *scroll_offset - back
        };
        *scroll_offset = if moved < max_offset {
            moved
        } else {
            max_offset
        };
    } else {
        let moved = *scroll_offset + (delta as usize);
        *scroll_offset = if moved < max_offset {
            moved
        } else {
            max_offset
        };
    }
}

// ---------------------------------------------------------------------------
// Scrollbar arithmetic in IEEE doubles (round to nearest, ties to even), computed
// exactly with integers for operands below 2^53, where an integer converts to a double
// without rounding.
// ---------------------------------------------------------------------------

/// Integers below this bound convert to a double exactly.
pub open spec fn exact_in_double(n: nat) -> bool {
    n < pow2(53)
}

/// `n / d` rounded to the nearest integer, a tie going to the even one.
pub open spec fn round_half_even(n: nat, d: nat) -> nat {
    let q = n / d;
    let r = n % d;
    if 2 * r > d || (2 * r == d && q % 2 == 1) {
        q + 1
    } else {
        q
    }
}

/// The least `k' >= k` with `n * 2^k' >= 2^52 * d`: the scale that gives `n / d` a
/// 53-bit significand.
pub open spec fn ratio_scale(n: nat, d: nat, k: nat) -> nat
    decreases (if n == 0 || n * pow2(k) >= pow2(52) * d { 0 } else { pow2(52) * d - n * pow2(k) }),
{
    if n == 0 || n * pow2(k) >= pow2(52) * d {
        k
    } else {
        proof {
            lemma_pow2_unfold(k + 1);
            lemma_pow2_pos(k);
            assert(n * pow2(k + 1) > n * pow2(k)) by (nonlinear_arith)
                requires
                    pow2(k + 1) == 2 * pow2(k),
                    pow2(k) > 0,
                    n > 0,
            ;
        }
        ratio_scale(n, d, k + 1)
    }
}

/// The least `s' >= s` with `t < 2^53 * 2^s'`: the shift that leaves `t` 53 bits.
pub open spec fn shift_to_53(t: nat, s: nat) -> nat
    decreases (if t < pow2(53) * pow2(s) { 0 } else { t - pow2(53) * pow2(s) + 1 }),
{
    if t < pow2(53) * pow2(s) {
        s
    } else {
        proof {
            lemma_pow2_unfold(s + 1);
            lemma_pow2_pos(s);
            lemma_pow2_pos(53);
            assert(pow2(53) * pow2(s + 1) == pow2(53) * pow2(s) + pow2(53) * pow2(s)) by (nonlinear_arith)
                requires
                    pow2(s + 1) == 2 * pow2(s),
            ;
            assert(pow2(53) * pow2(s) > 0) by (nonlinear_arith)
                requires
                    pow2(s) > 0,
                    pow2(53) > 0,
            ;
        }
        shift_to_53(t, s + 1)
    }
}

/// The double product of the double quotient `n / d` (`n < d`) and `a`, as the exact
/// fraction (numerator, denominator) of its value.
pub open spec fn ratio_times(n: nat, d: nat, a: nat) -> (nat, nat) {
    if n == 0 || a == 0 {
        (0, 1)
    } else {
        let k = ratio_scale(n, d, 0);
        let m = round_half_even(n * pow2(k), d);
        let t = m * a;
        let s = shift_to_53(t, 0);
        (round_half_even(t, pow2(s)) * pow2(s), pow2(k))
    }
}

/// Height of the scrollbar thumb: the whole area when everything fits, else the double
/// `page_size / list_size` times the area, truncated.
pub open spec fn scrollbar_height(list_size: nat, page_size: nat, scroll_area_size: nat) -> nat {
    if page_size >= list_size || list_size == 0 {
        scroll_area_size
    } else {
        let (num, den) = ratio_times(page_size, list_size, scroll_area_size);
        num / den
    }
}

/// Start and height of the scrollbar thumb within the scroll area.  The thumb sits at
/// the top at position 0, at the bottom at the last position, and in between at the
/// double `position / max_position` times the remaining range (one row short of the
/// bottom), rounded up.
pub open spec fn scrollbar(list_size: nat, page_size: nat, position: nat, scroll_area_size: nat) -> (
    nat,
    nat,
) {
    let height = scrollbar_height(list_size, page_size, scroll_area_size);
    let max_position: nat = if list_size > page_size {
        (list_size - page_size) as nat
    } else {
        0
    };
    if max_position == 0 {
        (0, height)
    } else if position >= max_position {
        (if scroll_area_size > height {
            (scroll_area_size - height) as nat
        } else {
            0
        }, height)
    } else {
        let range: nat = if scroll_area_size > height + 1 {
            (scroll_area_size - height - 1) as nat
        } else {
            0
        };
        let (num, den) = ratio_times(position, max_position, range);
        (((num + den - 1) as nat) / den, height)
    }
}

proof fn lemma_rhe_le(n: nat, d: nat, bound: nat)
    requires
        d > 0,
        n <= bound * d,
    ensures
        round_half_even(n, d) <= bound,
{
    let q = n / d;
    let r = n % d;
    assert(n == q * d + r && r < d) by (nonlinear_arith)
        requires
            d > 0,
            q == n / d,
            r == n % d,
    ;
    if q >= bound {
        assert(q == bound && r == 0) by (nonlinear_arith)
            requires
                n == q * d + r,
                r < d,
                n <= bound * d,
                q >= bound,
                d > 0,
        ;
    }
}

proof fn lemma_rhe_bound(n: nat, d: nat)
    requires
        d > 0,
    ensures
        round_half_even(n, d) * d <= n + d,
{
    let q = n / d;
    let r = n % d;
    assert(n == q * d + r && r < d) by (nonlinear_arith)
        requires
            d > 0,
            q == n / d,
            r == n % d,
    ;
    assert((q + 1) * d == q * d + d) by (nonlinear_arith);
}

proof fn lemma_ratio_scale(n: nat, d: nat, k: nat)
    requires
        n > 0,
        d > 0,
        n * pow2(k) < pow2(53) * d,
    ensures
        ratio_scale(n, d, k) >= k,
        n * pow2(ratio_scale(n, d, k)) >= pow2(52) * d,
        n * pow2(ratio_scale(n, d, k)) < pow2(53) * d,
    decreases (if n * pow2(k) >= pow2(52) * d { 0 } else { pow2(52) * d - n * pow2(k) }),
{
    if n * pow2(k) < pow2(52) * d {
        lemma_pow2_unfold(k + 1);
        lemma_pow2_unfold(53);
        lemma_pow2_pos(k);
        assert(n * pow2(k + 1) > n * pow2(k)) by (nonlinear_arith)
            requires
                pow2(k + 1) == 2 * pow2(k),
                pow2(k) > 0,
                n > 0,
        ;
        assert(n * pow2(k + 1) == 2 * (n * pow2(k))) by (nonlinear_arith)
            requires
                pow2(k + 1) == 2 * pow2(k),
        ;
        assert(pow2(53) * d == 2 * (pow2(52) * d)) by (nonlinear_arith)
            requires
                pow2(53) == 2 * pow2(52),
        ;
        lemma_ratio_scale(n, d, k + 1);
    }
}

proof fn lemma_shift(t: nat, s: nat)
    requires
        s == 0 || pow2(53) * pow2(s) <= 2 * t,
    ensures
        shift_to_53(t, s) >= s,
        t < pow2(53) * pow2(shift_to_53(t, s)),
        shift_to_53(t, s) == 0 || pow2(53) * pow2(shift_to_53(t, s)) <= 2 * t,
    decreases (if t < pow2(53) * pow2(s) { 0 } else { t - pow2(53) * pow2(s) + 1 }),
{
    if t >= pow2(53) * pow2(s) {
        lemma_pow2_unfold(s + 1);
        lemma_pow2_pos(s);
        lemma_pow2_pos(53);
        assert(pow2(53) * pow2(s) > 0) by (nonlinear_arith)
            requires
                pow2(s) > 0,
                pow2(53) > 0,
        ;
        assert(pow2(53) * pow2(s + 1) == 2 * (pow2(53) * pow2(s))) by (nonlinear_arith)
            requires
                pow2(s + 1) == 2 * pow2(s),
        ;
        lemma_shift(t, s + 1);
    }
}

/// The double product of the double quotient `n / d` and `a`, as the exact fraction of
/// its value (see `ratio_times`), with its value at most `a`.
fn ratio_times_exec(n: u64, d: u64, a: u64) -> (r: (u128, u128))
    requires
        n < d,
        exact_in_double(d as nat),
        exact_in_double(a as nat),
    ensures
        (r.0 as nat, r.1 as nat) == ratio_times(n as nat, d as nat, a as nat),
        r.1 > 0,
        r.0 <= (a as nat) * (r.1 as nat),
        r.0 <= 0x1_0000_0000_0000_0000_0000_0000_0000u128,
        r.1 <= 0x1_0000_0000_0000_0000_0000_0000_0000u128,
{
    proof {
        lemma2_to64();
        lemma2_to64_rest();
    }
    if n == 0 || a == 0 {
        return (0, 1);
    }
    let ghost k0 = ratio_scale(n as nat, d as nat, 0);
    let mut pw: u128 = 1;
    let ghost mut k: nat = 0;
    while (n as u128) * pw < 0x10_0000_0000_0000u128 * (d as u128)
        invariant
            0 < n < d < 0x20_0000_0000_0000,
            pow2(52) == 0x10_0000_0000_0000,
            pw == pow2(k),
            pw >= 1,
            ratio_scale(n as nat, d as nat, k) == k0,
            (n as int) * (pw as int) < 0x20_0000_0000_0000 * (d as int),
        decreases (if (n as int) * (pw as int) < 0x10_0000_0000_0000 * (d as int) {
            0x10_0000_0000_0000 * (d as int) - (n as int) * (pw as int)
        } else {
            0
        }),
    {
        proof {
            lemma_pow2_unfold(k + 1);
            assert((n as int) * (pw as int * 2) == 2 * ((n as int) * (pw as int))) by (nonlinear_arith);
            assert((n as int) * (pw as int) >= 1) by (nonlinear_arith)
                requires
                    n >= 1,
                    pw >= 1,
            ;
            assert(pw < 0x20_0000_0000_0000 * 0x20_0000_0000_0000) by (nonlinear_arith)
                requires
                    (n as int) * (pw as int) < 0x20_0000_0000_0000 * (d as int),
                    n >= 1,
                    d < 0x20_0000_0000_0000,
            ;
        }
        pw = pw * 2;
        proof {
            k = k + 1;
        }
    }
    proof {
        assert(k == k0);
        assert((n as int) * (pw as int) <= (pw as int) * (d as int)) by (nonlinear_arith)
            requires
                n < d,
        ;
    }
    let x: u128 = (n as u128) * pw;
    let q: u128 = x / (d as u128);
    let rem: u128 = x % (d as u128);
    let m: u128 = if 2 * rem > (d as u128) || (2 * rem == (d as u128) && q % 2 == 1) {
        q + 1
    } else {
        q
    };
    proof {
        assert(m == round_half_even(x as nat, d as nat));
        lemma_rhe_le(x as nat, d as nat, pw as nat);
        assert(q < 0x20_0000_0000_0000) by (nonlinear_arith)
            requires
                (x as int) < 0x20_0000_0000_0000 * (d as int),
                d > 0,
                q as int == (x as int) / (d as int),
        ;
        assert((m as int) * (a as int) < 0x20_0000_0000_0000 * 0x20_0000_0000_0000 + 0x20_0000_0000_0000) by (nonlinear_arith)
            requires
                m <= 0x20_0000_0000_0000,
                a < 0x20_0000_0000_0000,
        ;
    }
    let t: u128 = m * (a as u128);
    let ghost s0 = shift_to_53(t as nat, 0);
    proof {
        lemma_shift(t as nat, 0);
    }
    let b53: u128 = 0x20_0000_0000_0000;
    let mut pw2: u128 = 1;
    let ghost mut s: nat = 0;
    while t >= 0x20_0000_0000_0000u128 * pw2
        invariant
            b53 == pow2(53),
            pow2(53) == 0x20_0000_0000_0000,
            pw2 == pow2(s),
            pw2 >= 1,
            pw2 <= 0x40_0000_0000_0000,
            shift_to_53(t as nat, s) == s0,
            (t as int) < 0x20_0000_0000_0000 * 0x20_0000_0000_0000 + 0x20_0000_0000_0000,
            s == 0 || 0x20_0000_0000_0000 * (pw2 as int) <= 2 * (t as int),
        decreases (if (t as int) >= 0x20_0000_0000_0000 * (pw2 as int) {
            (t as int) + 1 - 0x20_0000_0000_0000 * (pw2 as int)
        } else {
            0
        }),
    {
        proof {
            lemma_pow2_unfold(s + 1);
        }
        pw2 = pw2 * 2;
        proof {
            s = s + 1;
        }
    }
    proof {
        assert(s == s0);
    }
    let q2: u128 = t / pw2;
    let rem2: u128 = t % pw2;
    let m2: u128 = if 2 * rem2 > pw2 || (2 * rem2 == pw2 && q2 % 2 == 1) {
        q2 + 1
    } else {
        q2
    };
    proof {
        assert(m2 == round_half_even(t as nat, pw2 as nat));
        lemma_rhe_bound(t as nat, pw2 as nat);
        assert((t as int) <= (pw as int) * (a as int)) by (nonlinear_arith)
            requires
                t == m * a,
                m <= pw,
        ;
        // The shift is at most the scale, so the value stays within `a`.
        assert(s <= k) by {
            if s > k {
                lemma_pow2_unfold(s);
                assert(pow2(s) == 2 * pow2((s - 1) as nat));
                if (s - 1) as nat > k {
                    vstd::arithmetic::power2::lemma_pow2_strictly_increases(k, (s - 1) as nat);
                }
                assert(false) by (nonlinear_arith)
                    requires
                        (b53 as int) * (pw2 as int) <= 2 * (t as int),
                        (t as int) <= (pw as int) * (a as int),
                        a < b53,
                        pw2 >= 2 * pw,
                        pw >= 1,
                ;
            }
        }
        let e = (k - s) as nat;
        vstd::arithmetic::power2::lemma_pow2_adds(s, e);
        let bound = (a as nat) * pow2(e);
        assert((t as int) <= bound * (pw2 as int)) by (nonlinear_arith)
            requires
                (t as int) <= (pw as int) * (a as int),
                pw as int == (pw2 as int) * pow2(e),
                bound == (a as int) * pow2(e),
        ;
        lemma_rhe_le(t as nat, pw2 as nat, bound);
        assert((m2 as int) * (pw2 as int) <= (a as int) * (pw as int)) by (nonlinear_arith)
            requires
                m2 <= bound,
                bound == (a as int) * pow2(e),
                pw as int == (pw2 as int) * pow2(e),
                pw2 > 0,
        ;
        assert(pw <= 0x1_0000_0000_0000_0000_0000_0000_0000u128) by (nonlinear_arith)
            requires
                (n as int) * (pw as int) < 0x20_0000_0000_0000 * (d as int),
                n >= 1,
                d < 0x20_0000_0000_0000,
        ;
    }
    (m2 * pw2, pw)
}

/// Height of the scrollbar thumb (see `scrollbar_height`).
pub fn calc_scrollbar_height(list_size: usize, page_size: usize, scroll_area_size: usize) -> (h: usize)
    requires
        page_size < list_size ==> exact_in_double(list_size as nat) && exact_in_double(scroll_area_size as nat),
    ensures
        h == scrollbar_height(list_size as nat, page_size as nat, scroll_area_size as nat),
        h <= scroll_area_size,
{
    if page_size >= list_size || list_size == 0 {
        return scroll_area_size;
    }
    let (num, den) = ratio_times_exec(page_size as u64, list_size as u64, scroll_area_size as u64);
    let h = num / den;
    proof {
        assert(h <= scroll_area_size) by (nonlinear_arith)
            requires
                h as int == (num as int) / (den as int),
                num <= scroll_area_size * den,
                den > 0,
        ;
    }
    h as usize
}

/// Start offset and height of the scrollbar thumb within `scroll_area_size` rows (see
/// `scrollbar`).
pub fn calc_scrollbar(list_size: usize, page_size: usize, position: usize, scroll_area_size: usize) -> (r: (
    usize,
    usize,
))
    requires
        page_size < list_size ==> exact_in_double(list_size as nat) && exact_in_double(scroll_area_size as nat),
    ensures
        (r.0 as nat, r.1 as nat) == scrollbar(
            list_size as nat,
            page_size as nat,
            position as nat,
            scroll_area_size as nat,
        ),
        r.0 + r.1 <= scroll_area_size,
{
    let height = calc_scrollbar_height(list_size, page_size, scroll_area_size);
    let max_position: usize = if list_size > page_size {
        list_size - page_size
    } else {
        0
    };
    if max_position == 0 {
        return (0, height);
    }
    if position >= max_position {
        let start = if scroll_area_size > height {
            scroll_area_size - height
        } else {
            0
        };
        return (start, height);
    }
    let range: usize = if scroll_area_size - height > 1 {
        scroll_area_size - height - 1
    } else {
        0
    };
    let (num, den) = ratio_times_exec(position as u64, max_position as u64, range as u64);
    let start: u128 = (num + den - 1) / den;
    proof {
        assert(start <= range) by (nonlinear_arith)
            requires
                start == ((num + den - 1) as int) / (den as int),
                num <= range * den,
                den > 0,
        ;
    }
    (start as usize, height)
}

/// The visual rows (first, last) of the scrollbar on the border, when one is shown.
pub open spec fn real_scrollbar(
    content_height: nat,
    visible_height: nat,
    scroll_offset: nat,
    can_scroll_past_bottom: bool,
    top_y: u16,
) -> Option<(int, int)> {
    let full_height = if can_scroll_past_bottom {
        content_height + visible_height
    } else {
        content_height
    };
    if visible_height < 2 || (!can_scroll_past_bottom && visible_height >= full_height) {
        None
    } else if content_height <= visible_height && scroll_offset == 0 {
        None
    } else {
        let sb = scrollbar(full_height, visible_height, scroll_offset, (visible_height - 1) as nat);
        let real_start = top_y + (sb.0 as u16);
        Some((real_start, real_start + (sb.1 as u16)))
    }
}

/// Computes the first and last (inclusive) rows of the scrollbar on the border, or
/// `None` when no scrollbar is shown.
pub fn calc_real_scrollbar_start_end(
    content_height: usize,
    visible_height: usize,
    scroll_offset: usize,
    can_scroll_past_bottom: bool,
    top_y: u16,
) -> (r: Option<(u16, u16)>)
    requires
        can_scroll_past_bottom ==> content_height + visible_height <= usize::MAX,
        exact_in_double((if can_scroll_past_bottom { content_height + visible_height } else { content_height as int }) as nat),
        visible_height <= u16::MAX,
        top_y + visible_height <= u16::MAX,
    ensures
        match r {
            Some((s, e)) => real_scrollbar(
                content_height as nat,
                visible_height as nat,
                scroll_offset as nat,
                can_scroll_past_bottom,
                top_y,
            ) == Some((s as int, e as int)),
            None => real_scrollbar(
                content_height as nat,
                visible_height as nat,
                scroll_offset as nat,
                can_scroll_past_bottom,
                top_y,
            ).is_none(),
        },
{
    let mut full_height = content_height;
    if can_scroll_past_bottom {
        full_height = full_height + visible_height;
    }
    if visible_height < 2 || (!can_scroll_past_bottom && visible_height >= full_height) {
        return None;
    }
    if content_height <= visible_height && scroll_offset == 0 {
        return None;
    }
    let scroll_area_size = visible_height - 1;
    let (scrollbar_start, scrollbar_height) = calc_scrollbar(
        full_height,
        visible_height,
        scroll_offset,
        scroll_area_size,
    );
    let real_start = top_y + (scrollbar_start as u16);
    let real_end = real_start + (scrollbar_height as u16);
    Some((real_start, real_end))
}

} // verus!

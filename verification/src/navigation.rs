//! Moving the selection through the gallery grid, and the arithmetic of the grid itself:
//! rows, the visible and prefetched ranges, and the thumbnail size hint.
use vstd::prelude::*;

verus! {

/// One step to the left: from the first work, wrap around to the last.
pub open spec fn spec_select_left(sel: int, len: int) -> int {
    if sel == 0 {
        len - 1
    } else if sel - 1 < len - 1 {
        sel - 1
    } else {
        len - 1
    }
}

/// One step to the right: from the last work, wrap around to the first.
pub open spec fn spec_select_right(sel: int, len: int) -> int {
    if sel == usize::MAX {
        sel % len
    } else {
        (sel + 1) % len
    }
}

/// One row up: clamps at the first work.
pub open spec fn spec_select_up(sel: int, n_wide: int) -> int {
    if sel >= n_wide {
        sel - n_wide
    } else {
        0
    }
}

/// One row down: clamps at the last work.
pub open spec fn spec_select_down(sel: int, n_wide: int, len: int) -> int {
    let next = if sel + n_wide > usize::MAX {
        usize::MAX as int
    } else {
        sel + n_wide
    };
    if next < len - 1 {
        next
    } else {
        len - 1
    }
}

/// The offset one step to the left of `sel` among `len` works.
pub fn select_left(sel: usize, len: usize) -> (r: usize)
    requires
        len > 0,
    ensures
        r == spec_select_left(sel as int, len as int),
{
    let prev = sel.wrapping_sub(1);
    if sel == 0 {
        assert(prev == usize::MAX);
    }
    if prev < len - 1 {
        prev
    } else {
        len - 1
    }
}

/// The offset one step to the right of `sel` among `len` works.
pub fn select_right(sel: usize, len: usize) -> (r: usize)
    requires
        len > 0,
    ensures
        r == spec_select_right(sel as int, len as int),
{
    sel.saturating_add(1) % len
}

/// The offset one row above `sel` in a grid `n_wide` works wide.
pub fn select_up(sel: usize, n_wide: usize) -> (r: usize)
    ensures
        r == spec_select_up(sel as int, n_wide as int),
{
    sel.saturating_sub(n_wide)
}

/// The offset one row below `sel` in a grid `n_wide` works wide, among `len` works.
pub fn select_down(sel: usize, n_wide: usize, len: usize) -> (r: usize)
    requires
        len > 0,
    ensures
        r == spec_select_down(sel as int, n_wide as int, len as int),
{
    let next = sel.saturating_add(n_wide);
    if next < len - 1 {
        next
    } else {
        len - 1
    }
}

/// Each move keeps a valid offset valid.
pub proof fn lemma_moves_stay_in_range(sel: int, n_wide: int, len: int)
    requires
        0 <= sel < len,
        len <= usize::MAX,
        0 <= n_wide <= usize::MAX,
    ensures
        0 <= spec_select_left(sel, len) < len,
        0 <= spec_select_right(sel, len) < len,
        0 <= spec_select_up(sel, n_wide) <= sel,
        0 <= spec_select_down(sel, n_wide, len) < len,
{
}

/// Stepping right undoes stepping left, and stepping left undoes stepping right: the two
/// wrap around the ends of the gallery.
pub proof fn lemma_left_right_inverse(sel: int, len: int)
    requires
        0 <= sel < len,
        len <= usize::MAX,
    ensures
        spec_select_right(spec_select_left(sel, len), len) == sel,
        spec_select_left(spec_select_right(sel, len), len) == sel,
{
    if sel + 1 == len {
        assert((sel + 1) % len == 0) by (nonlinear_arith)
            requires
                sel + 1 == len,
                len > 0,
        ;
    } else {
        assert((sel + 1) % len == sel + 1) by (nonlinear_arith)
            requires
                0 <= sel + 1 < len,
        ;
    }
    if sel == 0 {
        assert(len % len == 0) by (nonlinear_arith)
            requires
                len > 0,
        ;
    } else {
        assert(sel % len == sel) by (nonlinear_arith)
            requires
                0 <= sel < len,
        ;
    }
}

/// The number of rows a grid `n_wide` works wide needs for `len` works.
pub fn row_count(len: usize, n_wide: usize) -> (r: usize)
    requires
        n_wide > 0,
    ensures
        r == (len + n_wide - 1) / n_wide as int,
{
    let q = len / n_wide;
    let rem = len % n_wide;
    proof {
        assert(len == n_wide * q + rem) by (nonlinear_arith)
            requires
                n_wide > 0,
                q == len / n_wide,
                rem == len % n_wide,
        ;
        assert((len + n_wide - 1) / n_wide as int == if rem == 0 { q as int } else { q + 1 })
            by (nonlinear_arith)
            requires
                n_wide > 0,
                len == n_wide * q + rem,
                0 <= rem < n_wide,
        ;
    }
    if rem == 0 {
        q
    } else {
        assert(q < usize::MAX) by (nonlinear_arith)
            requires
                len == n_wide * q + rem,
                0 < rem < n_wide,
                len <= usize::MAX,
        ;
        q + 1
    }
}

/// The offsets of the works on screen, and the wider range whose images are loaded ahead of
/// scrolling: `(visible_start, visible_end, query_start, query_end)`. The rows on screen are
/// `rows_start..rows_end`; the range loaded ahead extends the visible one by its own length,
/// at least ten, on each side, within the gallery.
pub open spec fn spec_windows(rows_start: int, rows_end: int, n_wide: int, len: int) -> (
    int,
    int,
    int,
    int,
) {
    let vs = rows_start * n_wide;
    let ve = if rows_end * n_wide < len {
        rows_end * n_wide
    } else {
        len
    };
    let vlen = if ve > vs {
        ve - vs
    } else {
        0
    };
    let win = if vlen > 10 {
        vlen
    } else {
        10
    };
    let qs = if vs >= win {
        vs - win
    } else {
        0
    };
    let qe_raw = if ve + win > usize::MAX {
        usize::MAX as int
    } else {
        ve + win
    };
    let qe = if qe_raw < len {
        qe_raw
    } else {
        len
    };
    (vs, ve, qs, qe)
}

/// The visible and prefetched ranges of the gallery for the rows on screen.
pub fn gallery_windows(rows_start: usize, rows_end: usize, n_wide: usize, len: usize) -> (r: (
    usize,
    usize,
    usize,
    usize,
))
    requires
        rows_start * n_wide <= usize::MAX,
        rows_end * n_wide <= usize::MAX,
    ensures
        (r.0 as int, r.1 as int, r.2 as int, r.3 as int) == spec_windows(
            rows_start as int,
            rows_end as int,
            n_wide as int,
            len as int,
        ),
{
    let visible_start = rows_start * n_wide;
    let visible_end = if rows_end * n_wide < len {
        rows_end * n_wide
    } else {
        len
    };
    let visible_len = visible_end.saturating_sub(visible_start);
    let win = if visible_len > 10 {
        visible_len
    } else {
        10
    };
    let query_start = visible_start.saturating_sub(win);
    let query_end_raw = visible_end.saturating_add(win);
    let query_end = if query_end_raw < len {
        query_end_raw
    } else {
        len
    };
    (visible_start, visible_end, query_start, query_end)
}

/// The offsets around the slideshow's work whose images are loaded ahead: from ten before it
/// up to ten after it, short of the last work.
pub fn slideshow_prefetch(offset: usize, len: usize) -> (r: (usize, usize))
    ensures
        r.0 == (if offset >= 10 {
            offset - 10
        } else {
            0
        }),
        r.1 == ({
            let hi = if offset + 10 > usize::MAX {
                usize::MAX as int
            } else {
                offset + 10
            };
            let last = if len > 0 {
                len - 1
            } else {
                0
            };
            if hi < last {
                hi
            } else {
                last
            }
        }),
{
    let hi = offset.saturating_add(10);
    let last = len.saturating_sub(1);
    (offset.saturating_sub(10), if hi < last {
        hi
    } else {
        last
    })
}

/// Where the gallery should scroll to bring the selection back into view: the selected row,
/// and whether to center it. The rows fully on screen are `rows_start..rows_end - 1`; nothing
/// is asked when no scroll is pending or the selection is already on screen.
pub open spec fn spec_scroll_target(
    selected: Option<usize>,
    pending: bool,
    center: bool,
    rows_start: int,
    rows_end: int,
    n_wide: int,
) -> Option<(int, bool)> {
    match selected {
        None => None,
        Some(sel) => {
            let row = sel as int / n_wide;
            let last = if rows_end > 0 {
                rows_end - 1
            } else {
                0
            };
            if pending && !(rows_start <= row && row < last) {
                Some((row, center))
            } else {
                None
            }
        },
    }
}

/// A scroll is called for exactly when one is pending and the selected row is not fully on
/// screen: the rows from `rows_start` up to but not including `rows_end - 1` are fully
/// visible, the last row on screen only partly. The gallery then scrolls to the selected row,
/// centred when asked; with no selection it never scrolls.
pub proof fn lemma_scroll_when_not_fully_visible(
    selected: Option<usize>,
    pending: bool,
    center: bool,
    rows_start: int,
    rows_end: int,
    n_wide: int,
)
    requires
        n_wide > 0,
    ensures
        selected is None ==> spec_scroll_target(selected, pending, center, rows_start, rows_end, n_wide)
            is None,
        selected matches Some(sel) ==> {
            let row = sel as int / n_wide;
            let fully_visible = rows_start <= row && row + 1 < rows_end;
            &&& (pending && !fully_visible ==> spec_scroll_target(
                selected,
                pending,
                center,
                rows_start,
                rows_end,
                n_wide,
            ) == Some((row, center)))
            &&& (!pending || fully_visible ==> spec_scroll_target(
                selected,
                pending,
                center,
                rows_start,
                rows_end,
                n_wide,
            ) is None)
        },
{
}

/// The row to scroll to, if any, for the selection and the pending scroll request.
pub fn scroll_target(
    selected: Option<usize>,
    pending: bool,
    center: bool,
    rows_start: usize,
    rows_end: usize,
    n_wide: usize,
) -> (r: Option<(usize, bool)>)
    requires
        n_wide > 0,
    ensures
        match r {
            None => spec_scroll_target(
                selected,
                pending,
                center,
                rows_start as int,
                rows_end as int,
                n_wide as int,
            ) is None,
            Some((row, c)) => spec_scroll_target(
                selected,
                pending,
                center,
                rows_start as int,
                rows_end as int,
                n_wide as int,
            ) == Some((row as int, c)),
        },
{
    match selected {
        None => None,
        Some(sel) => {
            let row = sel / n_wide;
            let last = rows_end.saturating_sub(1);
            if pending && !(rows_start <= row && row < last) {
                Some((row, center))
            } else {
                None
            }
        },
    }
}

/// `x` is a power of two.
pub open spec fn is_power_of_two(x: int) -> bool
    decreases x,
{
    if x <= 0 {
        false
    } else if x == 1 {
        true
    } else {
        x % 2 == 0 && is_power_of_two(x / 2)
    }
}

/// The smallest power of two that is at least `n`: the thumbnail size that images are loaded
/// at, one power of two above the size shown, so that they are reloaded as the size grows.
pub fn next_power_of_two(n: u32) -> (r: u32)
    requires
        n <= 0x8000_0000,
    ensures
        is_power_of_two(r as int),
        n <= r,
        r == 1 || r < 2 * n,
{
    let mut p: u32 = 1;
    while p < n
        invariant
            n <= 0x8000_0000,
            is_power_of_two(p as int),
            1 <= p <= 0x8000_0000,
            p == 1 || p < 2 * n,
        decreases 0x1_0000_0000 - p,
    {
        assert(p <= 0x4000_0000) by {
            assert(is_power_of_two(0x4000_0000)) by {
                reveal_with_fuel(is_power_of_two, 32);
            }
            lemma_power_of_two_le(p as int, 0x4000_0000);
        }
        let q = p * 2;
        assert(q / 2 == p);
        assert(q % 2 == 0);
        p = q;
    }
    p
}

/// Of two powers of two, one below twice the other is at most the other.
proof fn lemma_power_of_two_le(p: int, m: int)
    requires
        is_power_of_two(p),
        is_power_of_two(m),
        p < 2 * m,
    ensures
        p <= m,
    decreases p,
{
    if p > 1 && m > 1 {
        lemma_power_of_two_le(p / 2, m / 2);
    }
}

} // verus!

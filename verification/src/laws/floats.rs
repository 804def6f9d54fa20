//! What holds of floats: how far a move carries one, what a resize
//! leaves, and where a float is kept.

use crate::floating::{
    adjusted, at_least, changed, default_place, has_room, kept_in_reach, resized, FloatChange,
    SizeChange,
    GREATEST_PROPORTION, LEAST_PROPORTION, REACH, STEP, WHOLE,
};
use crate::geometry::{
    saturated, saturated_pixels, Bounds, FloatRect, Rect, TileRect, SUBPIXEL,
};
use vstd::prelude::*;

verus! {

/// At least 100 px of the float are on the work area, in both
/// directions.
pub open spec fn in_reach(r: FloatRect, work: Rect) -> bool {
    &&& r.x + r.w >= (work.left + 100) * SUBPIXEL
    &&& r.x <= (work.right - 100) * SUBPIXEL
    &&& r.y + r.h >= (work.top + 100) * SUBPIXEL
    &&& r.y <= (work.bottom - 100) * SUBPIXEL
}

/// The number fits 64 bits.
pub open spec fn fits_64(n: int) -> bool {
    i64::MIN <= n <= i64::MAX
}

/// A step is 50 px, the part kept on the monitor is 100 px, and
/// proportions are taken between a twentieth and twenty times.
pub proof fn law_units()
    ensures
        STEP == 50 * SUBPIXEL,
        REACH == 100 * SUBPIXEL,
        20 * LEAST_PROPORTION == WHOLE,
        GREATEST_PROPORTION == 20 * WHOLE,
        SUBPIXEL > 0,
{
}

/// A number that fits is kept; one that does not becomes the end of the
/// range on its side.
pub proof fn law_saturation_is_nearest(n: int)
    ensures
        fits_64(n) ==> saturated(n) == n,
        n < i64::MIN ==> saturated(n) == i64::MIN,
        n > i64::MAX ==> saturated(n) == i64::MAX,
        i32::MIN <= n <= i32::MAX ==> saturated_pixels(n) == n,
        n < i32::MIN ==> saturated_pixels(n) == i32::MIN,
        n > i32::MAX ==> saturated_pixels(n) == i32::MAX,
{
}

/// Pixels become sub-pixels exactly, each edge and each extent in its
/// own place, however the rectangle is given.
pub proof fn law_scaling_is_exact(r: Rect, b: Bounds, t: TileRect)
    ensures
        r.scaled_of().x == r.left * SUBPIXEL,
        r.scaled_of().y == r.top * SUBPIXEL,
        r.scaled_of().x + r.scaled_of().w == r.right * SUBPIXEL,
        r.scaled_of().y + r.scaled_of().h == r.bottom * SUBPIXEL,
        b.scaled_of().x == b.x * SUBPIXEL,
        b.scaled_of().y == b.y * SUBPIXEL,
        b.scaled_of().w == b.w * SUBPIXEL,
        b.scaled_of().h == b.h * SUBPIXEL,
        t.scaled_of().x == t.x * SUBPIXEL,
        t.scaled_of().y == t.y * SUBPIXEL,
        t.scaled_of().w == t.w * SUBPIXEL,
        t.scaled_of().h == t.h * SUBPIXEL,
        r.sane() ==> r.bounds_of().scaled_of() == r.scaled_of(),
        r.sane() <==> r.right - r.left <= i32::MAX && r.left - r.right <= 0x8000_0000 && r.bottom
            - r.top <= i32::MAX && r.top - r.bottom <= 0x8000_0000,
{
}

/// A move carries a float exactly 50 px in its direction and changes
/// nothing else, as long as it stays in reach.
pub proof fn law_moves_are_exact(rect: FloatRect, dx: int, dy: int, change: FloatChange, work: Rect)
    requires
        match change {
            FloatChange::Left => dx == -50 && dy == 0,
            FloatChange::Right => dx == 50 && dy == 0,
            FloatChange::Up => dx == 0 && dy == -50,
            FloatChange::Down => dx == 0 && dy == 50,
            _ => false,
        },
        fits_64(rect.x + dx * SUBPIXEL),
        fits_64(rect.y + dy * SUBPIXEL),
    ensures
        ({
            let moved = FloatRect {
                x: (rect.x + dx * SUBPIXEL) as i64,
                y: (rect.y + dy * SUBPIXEL) as i64,
                w: rect.w,
                h: rect.h,
            };
            &&& adjusted(rect, change, None) == moved
            &&& in_reach(moved, work) ==> adjusted(rect, change, Some(work)) == moved
        }),
{
}

/// A move that would leave the range of 64 bits stops at its end, and
/// still changes nothing else.
pub proof fn law_moves_stop_at_the_end(rect: FloatRect)
    ensures
        adjusted(rect, FloatChange::Left, None) == (FloatRect {
            x: saturated(rect.x - 50 * SUBPIXEL) as i64,
            ..rect
        }),
        adjusted(rect, FloatChange::Right, None) == (FloatRect {
            x: saturated(rect.x + 50 * SUBPIXEL) as i64,
            ..rect
        }),
        adjusted(rect, FloatChange::Up, None) == (FloatRect {
            y: saturated(rect.y - 50 * SUBPIXEL) as i64,
            ..rect
        }),
        adjusted(rect, FloatChange::Down, None) == (FloatRect {
            y: saturated(rect.y + 50 * SUBPIXEL) as i64,
            ..rect
        }),
{
}

/// A change of the width changes nothing else, and the same holds of the
/// height, as long as the float stays in reach.
pub proof fn law_resizes_keep_the_rest(
    rect: FloatRect,
    change: SizeChange,
    work: Rect,
)
    ensures
        ({
            let wide = FloatRect { x: rect.x, y: rect.y, w: resized(rect.w, change), h: rect.h };
            let high = FloatRect { x: rect.x, y: rect.y, w: rect.w, h: resized(rect.h, change) };
            &&& adjusted(rect, FloatChange::Width(change), None) == wide
            &&& adjusted(rect, FloatChange::Height(change), None) == high
            &&& in_reach(wide, work) ==> adjusted(rect, FloatChange::Width(change), Some(work))
                == wide
            &&& in_reach(high, work) ==> adjusted(rect, FloatChange::Height(change), Some(work))
                == high
        }),
{
}

/// A change by `d`, up or down, is a change by exactly `d` wherever the
/// sum is at least 100 px and fits; below that it is 100 px.
pub proof fn law_size_steps_are_exact(size: i64, d: i64)
    ensures
        100 * SUBPIXEL <= size + d <= i64::MAX ==> resized(size, SizeChange::Delta(d)) == size + d,
        size + d < 100 * SUBPIXEL ==> resized(size, SizeChange::Delta(d)) == 100 * SUBPIXEL,
        size + d > i64::MAX ==> resized(size, SizeChange::Delta(d)) == i64::MAX,
{
}

/// A step in size and the same step back give the old size, as long as
/// the size between them is at least 100 px.
pub proof fn law_size_steps_cancel(size: i64, d: i64)
    requires
        size >= 100 * SUBPIXEL,
        100 * SUBPIXEL <= size + d <= i64::MAX,
        d > i64::MIN,
    ensures
        resized(resized(size, SizeChange::Delta(d)), SizeChange::Delta((-d) as i64)) == size,
{
}

/// A fixed size is taken as it is, but for the least extent, whatever
/// the size was.
pub proof fn law_fixed_sizes_are_taken(size: i64, f: i64)
    ensures
        f >= 100 * SUBPIXEL ==> resized(size, SizeChange::Fixed(f)) == f,
        f < 100 * SUBPIXEL ==> resized(size, SizeChange::Fixed(f)) == 100 * SUBPIXEL,
{
}

/// A proportion scales the size, to within half a sub-pixel; what would
/// be below 100 px is 100 px. A proportion outside the bounds acts as
/// the bound on its side.
pub proof fn law_proportions_scale(size: i64, p: i64)
    ensures
        ({
            let n = resized(size, SizeChange::Proportion(p));
            let bounded = WHOLE <= 20 * p && p <= 20 * WHOLE;
            let least = 100 * SUBPIXEL;
            let close = 2 * (n * WHOLE - size * p) <= WHOLE && 2 * (size * p - n * WHOLE) <= WHOLE;
            &&& bounded && least < n < i64::MAX ==> close
            &&& bounded && least * WHOLE <= size * p <= i64::MAX * WHOLE ==> close
            &&& bounded && size * p <= least * WHOLE ==> n == least
            &&& bounded && size * p >= (i64::MAX + 1) * WHOLE ==> n == i64::MAX
            &&& 20 * p <= WHOLE ==> n == resized(size, SizeChange::Proportion((WHOLE / 20) as i64))
            &&& p >= 20 * WHOLE ==> n == resized(
                size,
                SizeChange::Proportion((20 * WHOLE) as i64),
            )
        }),
{
    let n = resized(size, SizeChange::Proportion(p));
    if WHOLE <= 20 * p && p <= 20 * WHOLE {
        let m: int = size * p;
        let q: int = (2 * m + 1_000_000) / 2_000_000;
        assert(2 * (q * 1_000_000 - m) <= 1_000_000);
        assert(2 * (m - q * 1_000_000) <= 1_000_000);
        assert(n == at_least(saturated(q), 100_000_000) as i64);
    }
}

/// The work area has room for 100 px of the float in both directions
/// exactly when the float and the work area together are 200 px long,
/// and a float in reach has room.
pub proof fn law_room(rect: FloatRect, work: Rect)
    ensures
        has_room(rect, work) <==> rect.w + (work.right - work.left) * SUBPIXEL >= 200 * SUBPIXEL
            && rect.h + (work.bottom - work.top) * SUBPIXEL >= 200 * SUBPIXEL,
        has_room(rect, work) <==> exists|x: int, y: int|
            #![trigger reaches(rect, work, x, y)]
            reaches(rect, work, x, y),
{
    if has_room(rect, work) {
        assert(reaches(
            rect,
            work,
            (work.right - 100) * SUBPIXEL,
            (work.bottom - 100) * SUBPIXEL,
        ));
    }
}

/// A float of that size would be in reach at `x`, `y`.
pub open spec fn reaches(rect: FloatRect, work: Rect, x: int, y: int) -> bool {
    &&& x + rect.w >= (work.left + 100) * SUBPIXEL
    &&& x <= (work.right - 100) * SUBPIXEL
    &&& y + rect.h >= (work.top + 100) * SUBPIXEL
    &&& y <= (work.bottom - 100) * SUBPIXEL
}

pub open spec fn distance(a: int, b: int) -> int {
    if a < b {
        b - a
    } else {
        a - b
    }
}

/// A float is brought into reach by the shortest way, in each direction,
/// and keeps its size. One that is in reach stays where it is.
pub proof fn law_reach_moves_least(rect: FloatRect, work: Rect, x: int, y: int)
    requires
        has_room(rect, work),
        reaches(rect, work, x, y),
    ensures
        ({
            let r = kept_in_reach(rect, work);
            &&& in_reach(r, work)
            &&& r.w == rect.w
            &&& r.h == rect.h
            &&& distance(rect.x as int, r.x as int) <= distance(rect.x as int, x)
            &&& distance(rect.y as int, r.y as int) <= distance(rect.y as int, y)
        }),
        in_reach(rect, work) ==> kept_in_reach(rect, work) == rect,
{
}

/// An adjusted float is the changed one, brought into reach on its
/// monitor; without a monitor it is left where the change put it.
pub proof fn law_adjusting_is_changing_and_reaching(
    rect: FloatRect,
    change: FloatChange,
    work: Rect,
)
    ensures
        adjusted(rect, change, Some(work)) == kept_in_reach(
            adjusted(rect, change, None),
            work,
        ),
        adjusted(rect, change, None) == changed(rect, change),
{
}

/// A float whose place cannot be read takes three fifths of the work
/// area in each direction, in its middle. Without a work area it is
/// 800 by 600 px, 100 px from the corner.
pub proof fn law_default_place_is_centered(work: Rect)
    ensures
        ({
            let r = default_place(Some(work));
            let w = (work.right - work.left) * SUBPIXEL;
            let h = (work.bottom - work.top) * SUBPIXEL;
            &&& 5 * r.w == 3 * w
            &&& 5 * r.h == 3 * h
            &&& r.x - work.left * SUBPIXEL == work.right * SUBPIXEL - (r.x + r.w)
            &&& r.y - work.top * SUBPIXEL == work.bottom * SUBPIXEL - (r.y + r.h)
        }),
        default_place(None).x == 100 * SUBPIXEL,
        default_place(None).y == 100 * SUBPIXEL,
        default_place(None).w == 800 * SUBPIXEL,
        default_place(None).h == 600 * SUBPIXEL,
{
    let w: int = work.right - work.left;
    let h: int = work.bottom - work.top;
    assert((2 * (w * 1_000_000) + 5) / 10 == w * 200_000);
    assert((2 * (h * 1_000_000) + 5) / 10 == h * 200_000);
    assert((2 * (3 * w * 1_000_000) + 5) / 10 == w * 600_000);
    assert((2 * (3 * h * 1_000_000) + 5) / 10 == h * 600_000);
}

} // verus!

//! Floating windows: freed from the tiling grid, placed freely, and
//! kept within reach on their monitor.

use crate::geometry::{saturate, saturated, FloatRect, Rect, SUBPIXEL};
use vstd::prelude::*;

verus! {

/// How far one move action carries a float: 50 px.
pub const STEP: i64 = 50_000_000;

/// The least extent of a resized float, and the least part of a float
/// that stays on its monitor: 100 px.
pub const REACH: i64 = 100_000_000;

/// The scale of proportions: millionths.
pub const WHOLE: i64 = 1_000_000;

/// The least proportion applied at once: 0.05.
pub const LEAST_PROPORTION: i64 = 50_000;

/// The greatest proportion applied at once: 20.
pub const GREATEST_PROPORTION: i64 = 20_000_000;

/// A floating window. Its position is remembered while it floats.
#[derive(Debug, PartialEq, Eq)]
pub struct FloatState {
    /// The monitor the float belongs to.
    pub device: String,
    /// The workspace the float belongs to.
    pub workspace_idx: usize,
    pub rect: FloatRect,
}

/// A requested change of a width or height.
#[derive(Debug, Clone, Copy, PartialEq, Eq, Structural)]
pub enum SizeChange {
    /// Grow or shrink by so many sub-pixels.
    Delta(i64),
    /// Take this size, in sub-pixels.
    Fixed(i64),
    /// Scale by this proportion, in millionths.
    Proportion(i64),
}

/// What an action does to a float.
#[derive(Debug, Clone, Copy, PartialEq, Eq, Structural)]
pub enum FloatChange {
    Left,
    Right,
    Up,
    Down,
    Width(SizeChange),
    Height(SizeChange),
}

pub open spec fn at_least(n: int, least: int) -> int {
    if n < least {
        least
    } else {
        n
    }
}

/// The value of the range from `lo` to `hi` nearest to `n`.
pub open spec fn clamped(n: int, lo: int, hi: int) -> int {
    if n < lo {
        lo
    } else if n > hi {
        hi
    } else {
        n
    }
}

/// The integer nearest to `n / d`.
pub open spec fn nearest(n: int, d: int) -> int {
    (2 * n + d) / (2 * d)
}

/// A size after a change; never below the least extent.
pub open spec fn resized(size: i64, change: SizeChange) -> i64 {
    match change {
        SizeChange::Delta(d) => at_least(saturated(size + d), REACH as int) as i64,
        SizeChange::Fixed(f) => at_least(f as int, REACH as int) as i64,
        SizeChange::Proportion(p) => at_least(
            saturated(
                nearest(
                    size * clamped(
                        p as int,
                        LEAST_PROPORTION as int,
                        GREATEST_PROPORTION as int,
                    ),
                    WHOLE as int,
                ),
            ),
            REACH as int,
        ) as i64,
    }
}

/// A float's rectangle after a change, wherever its monitor lies.
pub open spec fn changed(rect: FloatRect, change: FloatChange) -> FloatRect {
    match change {
        FloatChange::Left => FloatRect { x: saturated(rect.x - STEP) as i64, ..rect },
        FloatChange::Right => FloatRect { x: saturated(rect.x + STEP) as i64, ..rect },
        FloatChange::Up => FloatRect { y: saturated(rect.y - STEP) as i64, ..rect },
        FloatChange::Down => FloatRect { y: saturated(rect.y + STEP) as i64, ..rect },
        FloatChange::Width(c) => FloatRect { w: resized(rect.w, c), ..rect },
        FloatChange::Height(c) => FloatRect { h: resized(rect.h, c), ..rect },
    }
}

/// Leftmost and topmost position, rightmost and lowest position, that
/// leave the wanted part of the float on the work area.
pub open spec fn leftmost(rect: FloatRect, work: Rect) -> int {
    work.left * SUBPIXEL - rect.w + REACH
}

pub open spec fn rightmost(work: Rect) -> int {
    work.right * SUBPIXEL - REACH
}

pub open spec fn topmost(rect: FloatRect, work: Rect) -> int {
    work.top * SUBPIXEL - rect.h + REACH
}

pub open spec fn lowest(work: Rect) -> int {
    work.bottom * SUBPIXEL - REACH
}

/// The work area has room for the wanted part of the float.
pub open spec fn has_room(rect: FloatRect, work: Rect) -> bool {
    &&& leftmost(rect, work) <= rightmost(work)
    &&& topmost(rect, work) <= lowest(work)
}

/// The float moved just as far as needed to keep the wanted part of it
/// on the work area.
pub open spec fn kept_in_reach(rect: FloatRect, work: Rect) -> FloatRect {
    FloatRect {
        x: saturated(clamped(rect.x as int, leftmost(rect, work), rightmost(work))) as i64,
        y: saturated(clamped(rect.y as int, topmost(rect, work), lowest(work))) as i64,
        ..rect
    }
}

/// A float after a change; `work` is its monitor's work area, where the
/// monitor is known.
pub open spec fn adjusted(rect: FloatRect, change: FloatChange, work: Option<Rect>) -> FloatRect {
    match work {
        Some(w) => kept_in_reach(changed(rect, change), w),
        None => changed(rect, change),
    }
}

/// Where a float is put whose position cannot be read: in the middle of
/// the work area at 60% of its size, or at a default place.
pub open spec fn default_place(work: Option<Rect>) -> FloatRect {
    match work {
        Some(r) => FloatRect {
            x: (r.left * SUBPIXEL + nearest(r.width_of() * SUBPIXEL, 5)) as i64,
            y: (r.top * SUBPIXEL + nearest(r.height_of() * SUBPIXEL, 5)) as i64,
            w: nearest(3 * r.width_of() * SUBPIXEL, 5) as i64,
            h: nearest(3 * r.height_of() * SUBPIXEL, 5) as i64,
        },
        None => FloatRect {
            x: (100 * SUBPIXEL) as i64,
            y: (100 * SUBPIXEL) as i64,
            w: (800 * SUBPIXEL) as i64,
            h: (600 * SUBPIXEL) as i64,
        },
    }
}

fn clamp_wide(n: i128, lo: i128, hi: i128) -> (r: i128)
    ensures
        r == clamped(n as int, lo as int, hi as int),
{
    if n < lo {
        lo
    } else if n > hi {
        hi
    } else {
        n
    }
}

fn resize(size: i64, change: SizeChange) -> (r: i64)
    ensures
        r == resized(size, change),
        change matches SizeChange::Delta(d) ==> {
            &&& 100 * SUBPIXEL <= size + d <= i64::MAX ==> r == size + d
            &&& size + d < 100 * SUBPIXEL ==> r == 100 * SUBPIXEL
        },
{
    let wanted: i64 = match change {
        SizeChange::Delta(d) => saturate(size as i128 + d as i128),
        SizeChange::Fixed(f) => f,
        SizeChange::Proportion(p) => {
            let q: i128 = clamp_wide(
                p as i128,
                LEAST_PROPORTION as i128,
                GREATEST_PROPORTION as i128,
            );
            if size <= 0 {
                assert(size * q <= 0) by (nonlinear_arith)
                    requires
                        size <= 0,
                        q >= 0,
                ;
                proof {
                    let n: int = size * q;
                    assert((2 * n + 1_000_000) / 2_000_000 <= 0);
                }
                REACH
            } else {
                assert(0 <= size * q <= 0x7fff_ffff_ffff_ffff * 20_000_000) by (nonlinear_arith)
                    requires
                        0 <= size <= 0x7fff_ffff_ffff_ffff,
                        0 <= q <= 20_000_000,
                ;
                let product: i128 = size as i128 * q;
                saturate((2 * product + WHOLE as i128) / (2 * WHOLE as i128))
            }
        },
    };
    if wanted < REACH {
        REACH
    } else {
        wanted
    }
}

fn apply_change(rect: FloatRect, change: FloatChange) -> (r: FloatRect)
    ensures
        r == changed(rect, change),
{
    match change {
        FloatChange::Left => FloatRect { x: saturate(rect.x as i128 - STEP as i128), ..rect },
        FloatChange::Right => FloatRect { x: saturate(rect.x as i128 + STEP as i128), ..rect },
        FloatChange::Up => FloatRect { y: saturate(rect.y as i128 - STEP as i128), ..rect },
        FloatChange::Down => FloatRect { y: saturate(rect.y as i128 + STEP as i128), ..rect },
        FloatChange::Width(c) => FloatRect { w: resize(rect.w, c), ..rect },
        FloatChange::Height(c) => FloatRect { h: resize(rect.h, c), ..rect },
    }
}

/// Has the work area room for the wanted part of the float?
pub fn fits(r: FloatRect, work: Rect) -> (b: bool)
    ensures
        b == has_room(r, work),
{
    let unit: i128 = SUBPIXEL as i128;
    let reach: i128 = REACH as i128;
    work.left as i128 * unit - r.w as i128 + reach <= work.right as i128 * unit - reach
        && work.top as i128 * unit - r.h as i128 + reach <= work.bottom as i128 * unit - reach
}

/// Move a float just as far as needed to keep at least 100 px of it on
/// the work area.
pub fn keep_in_reach(r: FloatRect, work: Rect) -> (kept: FloatRect)
    requires
        has_room(r, work),
    ensures
        kept == kept_in_reach(r, work),
{
    let unit: i128 = SUBPIXEL as i128;
    let reach: i128 = REACH as i128;
    FloatRect {
        x: saturate(
            clamp_wide(
                r.x as i128,
                work.left as i128 * unit - r.w as i128 + reach,
                work.right as i128 * unit - reach,
            ),
        ),
        y: saturate(
            clamp_wide(
                r.y as i128,
                work.top as i128 * unit - r.h as i128 + reach,
                work.bottom as i128 * unit - reach,
            ),
        ),
        ..r
    }
}

/// Has the work area room for the wanted part of the float, once it is
/// changed?
pub fn can_adjust(rect: FloatRect, change: FloatChange, work: Rect) -> (b: bool)
    ensures
        b == has_room(changed(rect, change), work),
{
    fits(apply_change(rect, change), work)
}

/// Move or resize a float, keeping at least 100 px of it on its monitor.
pub fn adjust(rect: FloatRect, change: FloatChange, work: Option<Rect>) -> (r: FloatRect)
    requires
        work matches Some(w) ==> has_room(changed(rect, change), w),
    ensures
        r == adjusted(rect, change, work),
        change matches FloatChange::Width(SizeChange::Delta(d)) ==> (100 * SUBPIXEL <= rect.w + d
            <= i64::MAX ==> r.w == rect.w + d),
        change matches FloatChange::Height(SizeChange::Delta(d)) ==> (100 * SUBPIXEL <= rect.h + d
            <= i64::MAX ==> r.h == rect.h + d),
{
    let r = apply_change(rect, change);
    match work {
        Some(w) => keep_in_reach(r, w),
        None => r,
    }
}

fn nearest_of(n: i64, d: i64) -> (r: i64)
    requires
        -0x1000_0000_0000_0000 <= n <= 0x1000_0000_0000_0000,
        0 < d <= 10,
    ensures
        r == nearest(n as int, d as int),
{
    let m: i64 = 2 * n + d;
    let e: i64 = 2 * d;
    if m >= 0 {
        m / e
    } else {
        let q: i64 = (e - 1 - m) / e;
        proof {
            let r: int = (e - 1 - m) % (e as int);
            assert(e - 1 - m == e * q + r && 0 <= r < e) by (nonlinear_arith)
                requires
                    e > 0,
                    q == (e - 1 - m) / (e as int),
                    r == (e - 1 - m) % (e as int),
            ;
            assert(m as int / e as int == -q) by (nonlinear_arith)
                requires
                    e > 0,
                    e - 1 - m == e * q + r,
                    0 <= r < e,
            ;
        }
        -q
    }
}

/// Place a float whose position cannot be read.
pub fn place_default(work: Option<Rect>) -> (r: FloatRect)
    ensures
        r == default_place(work),
{
    match work {
        Some(r) => {
            let w: i64 = r.width() * SUBPIXEL;
            let h: i64 = r.height() * SUBPIXEL;
            assert(nearest(w as int, 5) == (2 * w + 5) / 10);
            assert(nearest(h as int, 5) == (2 * h + 5) / 10);
            FloatRect {
                x: r.left as i64 * SUBPIXEL + nearest_of(w, 5),
                y: r.top as i64 * SUBPIXEL + nearest_of(h, 5),
                w: nearest_of(3 * w, 5),
                h: nearest_of(3 * h, 5),
            }
        },
        None => FloatRect {
            x: 100 * SUBPIXEL,
            y: 100 * SUBPIXEL,
            w: 800 * SUBPIXEL,
            h: 600 * SUBPIXEL,
        },
    }
}

/// An adjusted float keeps at least 100 px on its monitor, in both
/// directions.
pub proof fn law_float_stays_in_reach(rect: FloatRect, change: FloatChange, work: Rect)
    requires
        has_room(changed(rect, change), work),
    ensures
        ({
            let r = adjusted(rect, change, Some(work));
            &&& r.x + r.w >= work.left * SUBPIXEL + REACH
            &&& r.x <= work.right * SUBPIXEL - REACH
            &&& r.y + r.h >= work.top * SUBPIXEL + REACH
            &&& r.y <= work.bottom * SUBPIXEL - REACH
            &&& r.w == changed(rect, change).w
            &&& r.h == changed(rect, change).h
        }),
{
}

/// The move that takes a move back.
pub open spec fn opposite(change: FloatChange) -> FloatChange {
    match change {
        FloatChange::Left => FloatChange::Right,
        FloatChange::Right => FloatChange::Left,
        FloatChange::Up => FloatChange::Down,
        FloatChange::Down => FloatChange::Up,
        _ => change,
    }
}

/// A float within reach, with a step to spare on every side, is back
/// where it was after a move and the opposite move.
pub proof fn law_float_moves_back(rect: FloatRect, change: FloatChange, work: Rect)
    requires
        !(change is Width) && !(change is Height),
        leftmost(rect, work) + STEP <= rect.x <= rightmost(work) - STEP,
        topmost(rect, work) + STEP <= rect.y <= lowest(work) - STEP,
        i64::MIN + STEP <= rect.x <= i64::MAX - STEP,
        i64::MIN + STEP <= rect.y <= i64::MAX - STEP,
    ensures
        adjusted(adjusted(rect, change, Some(work)), opposite(change), Some(work)) == rect,
{
}

/// A resized float is never smaller than the least extent.
pub proof fn law_resize_has_a_floor(size: i64, change: SizeChange)
    ensures
        resized(size, change) >= REACH,
{
}

} // verus!

//! What is done to real windows: decorations, moves, and the desktop
//! bars that must stay above.

use crate::geometry::{Monitor, Rect, TileRect, WindowId};
use std::collections::HashSet;
use vstd::prelude::*;

verus! {

broadcast use vstd::std_specs::hash::group_hash_axioms;

/// Window style bits, as the window system defines them.
pub const WS_CAPTION: u32 = 0x00C0_0000;

pub const WS_THICKFRAME: u32 = 0x0004_0000;

pub const WS_SYSMENU: u32 = 0x0008_0000;

pub const WS_MINIMIZEBOX: u32 = 0x0002_0000;

pub const WS_MAXIMIZEBOX: u32 = 0x0001_0000;

pub const WS_EX_TOOLWINDOW: u32 = 0x0000_0080;

pub const WS_EX_NOACTIVATE: u32 = 0x0800_0000;

/// Decorations to strip for the borderless windowed-fullscreen look.
pub const FULLSCREEN_STRIP: u32 = WS_CAPTION | WS_THICKFRAME | WS_SYSMENU | WS_MINIMIZEBOX
    | WS_MAXIMIZEBOX;

/// The extended style of a bar.
pub const BAR_STYLE: u32 = WS_EX_TOOLWINDOW | WS_EX_NOACTIVATE;

/// A style without decorations.
pub open spec fn bare(style: u32) -> u32 {
    style & !FULLSCREEN_STRIP
}

/// The decorations of a style.
pub open spec fn decorations(style: u32) -> u32 {
    style & FULLSCREEN_STRIP
}

/// A style with the decorations `removed` put back.
pub open spec fn decorated(style: u32, removed: u32) -> u32 {
    style | decorations(removed)
}

/// The decorations of a style.
pub fn decorations_of(style: u32) -> (d: u32)
    ensures
        d == decorations(style),
{
    style & FULLSCREEN_STRIP
}

/// Strip (on) or restore (off) window decorations: the style to write,
/// where it differs from the present one. Restoring puts back only the
/// decorations that were `removed` before.
pub fn set_borderless(style: u32, removed: u32, on: bool) -> (write: Option<u32>)
    ensures
        ({
            let wanted = if on {
                bare(style)
            } else {
                decorated(style, removed)
            };
            write == (if wanted == style {
                None
            } else {
                Some(wanted)
            })
        }),
{
    let wanted: u32 = if on {
        style & !FULLSCREEN_STRIP
    } else {
        style | decorations_of(removed)
    };
    if wanted == style {
        None
    } else {
        Some(wanted)
    }
}

/// Restoring what was stripped gives the window's style back as it was.
pub proof fn law_decorations_come_back(style: u32)
    ensures
        decorated(bare(style), decorations(style)) == style,
{
    let strip = FULLSCREEN_STRIP;
    assert((style & !strip) | ((style & strip) & strip) == style) by (bit_vector);
}

/// A stripped window has no decorations left, and stripping it again
/// changes nothing.
pub proof fn law_strip_is_final(style: u32)
    ensures
        decorations(bare(style)) == 0,
        bare(bare(style)) == bare(style),
{
    let strip = FULLSCREEN_STRIP;
    assert((style & !strip) & strip == 0) by (bit_vector);
    assert((style & !strip) & !strip == style & !strip) by (bit_vector);
}

/// What is known of a top-level window that might be a bar.
#[derive(Debug)]
pub struct BarCandidate {
    pub id: WindowId,
    pub visible: bool,
    /// The process that owns the window.
    pub process: u32,
    pub ex_style: u32,
    /// Its rectangle, where it could be read.
    pub rect: Option<Rect>,
}

/// The rectangle reaches into the strip of the monitor from height `lo`
/// to `hi`.
pub open spec fn overlaps(rect: Rect, m: Monitor, lo: i32, hi: i32) -> bool {
    &&& rect.bottom > lo && rect.top < hi && lo < hi
    &&& rect.right > m.full.left && rect.left < m.full.right
}

pub open spec fn extent(n: int) -> int {
    if n < 1 {
        1
    } else {
        n
    }
}

/// The rectangle reaches into a strip of the monitor outside the work area,
/// spans at least half its width and takes at most a quarter of its
/// height.
pub open spec fn bar_shaped(rect: Rect, m: Monitor) -> bool {
    &&& overlaps(rect, m, m.full.top, m.work.top) || overlaps(
        rect,
        m,
        m.work.bottom,
        m.full.bottom,
    )
    &&& 2 * extent(rect.width_of()) >= extent(m.full.width_of())
    &&& 4 * extent(rect.height_of()) <= extent(m.full.height_of())
}

/// A bar: a visible tool window of another process that never takes the
/// focus and lies in the bar zone of some monitor.
pub open spec fn is_bar(c: BarCandidate, own_process: u32, monitors: Seq<Monitor>) -> bool {
    &&& c.visible
    &&& c.process != own_process
    &&& c.ex_style & BAR_STYLE == BAR_STYLE
    &&& c.rect matches Some(rect)
    &&& exists|i: int| 0 <= i < monitors.len() && bar_shaped(rect, #[trigger] monitors[i])
}

/// The bars among the windows, in the order they were found.
pub open spec fn bars_of(
    windows: Seq<BarCandidate>,
    own_process: u32,
    monitors: Seq<Monitor>,
) -> Seq<WindowId>
    decreases windows.len(),
{
    if windows.len() == 0 {
        Seq::empty()
    } else {
        let sofar = bars_of(windows.drop_last(), own_process, monitors);
        if is_bar(windows.last(), own_process, monitors) {
            sofar.push(windows.last().id)
        } else {
            sofar
        }
    }
}

fn extent_of(n: i64) -> (r: i64)
    ensures
        r == extent(n as int),
{
    if n < 1 {
        1
    } else {
        n
    }
}

fn has_bar_shape(rect: &Rect, m: &Monitor) -> (b: bool)
    ensures
        b == bar_shaped(*rect, *m),
{
    let in_top: bool = rect.bottom > m.full.top && rect.top < m.work.top && m.full.top < m.work.top;
    let in_bottom: bool = rect.bottom > m.work.bottom && rect.top < m.full.bottom && m.work.bottom
        < m.full.bottom;
    let w: i64 = extent_of(rect.width());
    let h: i64 = extent_of(rect.height());
    let beside: bool = rect.right > m.full.left && rect.left < m.full.right;
    beside && (in_top || in_bottom) && 2 * w >= extent_of(m.full.width()) && 4 * h <= extent_of(
        m.full.height(),
    )
}

/// Is this window a bar?
pub fn looks_like_bar(c: &BarCandidate, own_process: u32, monitors: &Vec<Monitor>) -> (b: bool)
    ensures
        b == is_bar(*c, own_process, monitors@),
{
    if !c.visible || c.process == own_process || c.ex_style & BAR_STYLE != BAR_STYLE {
        return false;
    }
    match c.rect {
        None => false,
        Some(rect) => {
            let mut i: usize = 0;
            while i < monitors.len()
                invariant
                    i <= monitors@.len(),
                    c.rect == Some(rect),
                    c.visible,
                    c.process != own_process,
                    c.ex_style & BAR_STYLE == BAR_STYLE,
                    forall|k: int| 0 <= k < i ==> !bar_shaped(rect, #[trigger] monitors@[k]),
                decreases monitors@.len() - i,
            {
                if has_bar_shape(&rect, &monitors[i]) {
                    assert(bar_shaped(rect, monitors@[i as int]));
                    return true;
                }
                i = i + 1;
            }
            false
        },
    }
}

/// The bars to bring back above the windows, in the order they were
/// found.
pub fn raise_bars(
    windows: &Vec<BarCandidate>,
    own_process: u32,
    monitors: &Vec<Monitor>,
) -> (bars: Vec<WindowId>)
    ensures
        bars@ == bars_of(windows@, own_process, monitors@),
{
    let mut bars: Vec<WindowId> = Vec::new();
    let mut i: usize = 0;
    while i < windows.len()
        invariant
            i <= windows@.len(),
            bars@ == bars_of(windows@.take(i as int), own_process, monitors@),
        decreases windows@.len() - i,
    {
        assert(windows@.take(i + 1).drop_last() =~= windows@.take(i as int));
        if looks_like_bar(&windows[i], own_process, monitors) {
            bars.push(windows[i].id);
        }
        i = i + 1;
    }
    assert(windows@.take(i as int) =~= windows@);
    bars
}

/// Windows of the program itself (overlays, the focus ring) are never
/// taken for bars.
pub proof fn law_own_windows_are_no_bars(
    windows: Seq<BarCandidate>,
    own_process: u32,
    monitors: Seq<Monitor>,
    id: WindowId,
)
    requires
        bars_of(windows, own_process, monitors).contains(id),
    ensures
        exists|i: int|
            0 <= i < windows.len() && (#[trigger] windows[i]).id == id && windows[i].process
                != own_process && windows[i].visible,
    decreases windows.len(),
{
    let t = windows.drop_last();
    let sofar = bars_of(t, own_process, monitors);
    let all = bars_of(windows, own_process, monitors);
    if sofar.contains(id) {
        law_own_windows_are_no_bars(t, own_process, monitors, id);
        let i = choose|i: int|
            0 <= i < t.len() && (#[trigger] t[i]).id == id && t[i].process != own_process
                && t[i].visible;
        assert(windows[i] == t[i]);
    } else {
        let k = all.index_of(id);
        if k < sofar.len() {
            assert(sofar[k] == id);
        }
        assert(windows[windows.len() - 1].id == id);
    }
}

/// Tiles whose window is in the set.
pub open spec fn tile_in(alive: Set<WindowId>) -> spec_fn(TileRect) -> bool {
    |r: TileRect| alive.contains(r.id)
}

/// The moves to make: one for each tile whose window still lives, in
/// order. Dead handles are passed over.
pub fn apply_geometry(rects: &Vec<TileRect>, alive: &HashSet<WindowId>) -> (moves: Vec<TileRect>)
    ensures
        moves@ == rects@.filter(tile_in(alive@)),
{
    let mut moves: Vec<TileRect> = Vec::new();
    let mut i: usize = 0;
    proof {
        reveal(Seq::filter);
    }
    while i < rects.len()
        invariant
            i <= rects@.len(),
            moves@ == rects@.take(i as int).filter(tile_in(alive@)),
        decreases rects@.len() - i,
    {
        proof {
            reveal(Seq::filter);
            assert(rects@.take(i + 1).drop_last() =~= rects@.take(i as int));
        }
        if alive.contains(&rects[i].id) {
            moves.push(rects[i]);
        }
        i = i + 1;
    }
    assert(rects@.take(i as int) =~= rects@);
    moves
}

} // verus!

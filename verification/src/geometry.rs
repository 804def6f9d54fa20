//! Screen geometry: rectangles, tiles, monitors and the sub-pixel unit
//! in which free-floating windows are placed.

use crate::search::{first_where, lemma_first_is, lemma_first_none, same_index};
use vstd::prelude::*;

verus! {

/// Handle of a top-level window, as a plain number.
pub type WindowId = isize;

/// Sub-pixel units in one pixel. Floating windows are placed on this
/// grid: it holds decimal fractions of a pixel, and is exact under
/// addition.
pub const SUBPIXEL: i64 = 1_000_000;

/// A screen rectangle by its edges, in pixels.
#[derive(Debug, Clone, Copy, PartialEq, Eq, Structural)]
pub struct Rect {
    pub left: i32,
    pub top: i32,
    pub right: i32,
    pub bottom: i32,
}

/// A window's position and size, in pixels.
#[derive(Debug, Clone, Copy, PartialEq, Eq, Structural)]
pub struct Bounds {
    pub x: i32,
    pub y: i32,
    pub w: i32,
    pub h: i32,
}

/// A window's position and size on the sub-pixel grid.
#[derive(Debug, Clone, Copy, PartialEq, Eq, Structural)]
pub struct FloatRect {
    pub x: i64,
    pub y: i64,
    pub w: i64,
    pub h: i64,
}

/// The pixel rectangle one window is to occupy.
#[derive(Debug, Clone, Copy, PartialEq, Eq, Structural)]
pub struct TileRect {
    pub id: WindowId,
    pub x: i32,
    pub y: i32,
    pub w: i32,
    pub h: i32,
}

/// One display: its whole area and the part that bars leave free.
#[derive(Debug)]
pub struct Monitor {
    pub device: String,
    pub full: Rect,
    pub work: Rect,
    pub is_primary: bool,
}

/// The value nearest to `n` that 64 bits hold.
pub open spec fn saturated(n: int) -> int {
    if n < i64::MIN {
        i64::MIN as int
    } else if n > i64::MAX {
        i64::MAX as int
    } else {
        n
    }
}

/// Narrow to 64 bits, stopping at the ends of the range.
pub fn saturate(n: i128) -> (r: i64)
    ensures
        r == saturated(n as int),
{
    if n < i64::MIN as i128 {
        i64::MIN
    } else if n > i64::MAX as i128 {
        i64::MAX
    } else {
        n as i64
    }
}

/// The value nearest to `n` that 32 bits hold.
pub open spec fn saturated_pixels(n: int) -> int {
    if n < i32::MIN {
        i32::MIN as int
    } else if n > i32::MAX {
        i32::MAX as int
    } else {
        n
    }
}

/// Narrow to whole 32-bit pixels, stopping at the ends of the range.
pub fn saturate_pixels(n: i64) -> (r: i32)
    ensures
        r == saturated_pixels(n as int),
{
    if n < i32::MIN as i64 {
        i32::MIN
    } else if n > i32::MAX as i64 {
        i32::MAX
    } else {
        n as i32
    }
}

impl Rect {
    pub open spec fn width_of(self) -> int {
        self.right - self.left
    }

    pub open spec fn height_of(self) -> int {
        self.bottom - self.top
    }

    /// Both extents fit the 32-bit sizes that the window system takes.
    pub open spec fn sane(self) -> bool {
        &&& i32::MIN <= self.width_of() <= i32::MAX
        &&& i32::MIN <= self.height_of() <= i32::MAX
    }

    /// This rectangle as position and size.
    pub open spec fn bounds_of(self) -> Bounds {
        Bounds {
            x: self.left,
            y: self.top,
            w: self.width_of() as i32,
            h: self.height_of() as i32,
        }
    }

    /// This rectangle on the sub-pixel grid.
    pub open spec fn scaled_of(self) -> FloatRect {
        FloatRect {
            x: (self.left * SUBPIXEL) as i64,
            y: (self.top * SUBPIXEL) as i64,
            w: (self.width_of() * SUBPIXEL) as i64,
            h: (self.height_of() * SUBPIXEL) as i64,
        }
    }

    pub fn width(&self) -> (w: i64)
        ensures
            w == self.width_of(),
    {
        self.right as i64 - self.left as i64
    }

    pub fn height(&self) -> (h: i64)
        ensures
            h == self.height_of(),
    {
        self.bottom as i64 - self.top as i64
    }

    /// Is the size representable in the window system's 32 bits?
    pub fn is_sane(&self) -> (b: bool)
        ensures
            b == self.sane(),
    {
        let w: i64 = self.width();
        let h: i64 = self.height();
        i32::MIN as i64 <= w && w <= i32::MAX as i64 && i32::MIN as i64 <= h && h <= i32::MAX as i64
    }

    pub fn bounds(&self) -> (b: Bounds)
        requires
            self.sane(),
        ensures
            b == self.bounds_of(),
    {
        Bounds {
            x: self.left,
            y: self.top,
            w: self.right - self.left,
            h: self.bottom - self.top,
        }
    }

    pub fn scaled(&self) -> (r: FloatRect)
        ensures
            r == self.scaled_of(),
    {
        FloatRect {
            x: self.left as i64 * SUBPIXEL,
            y: self.top as i64 * SUBPIXEL,
            w: self.width() * SUBPIXEL,
            h: self.height() * SUBPIXEL,
        }
    }
}

impl Bounds {
    /// These bounds on the sub-pixel grid.
    pub open spec fn scaled_of(self) -> FloatRect {
        FloatRect {
            x: (self.x * SUBPIXEL) as i64,
            y: (self.y * SUBPIXEL) as i64,
            w: (self.w * SUBPIXEL) as i64,
            h: (self.h * SUBPIXEL) as i64,
        }
    }

    pub fn scaled(&self) -> (r: FloatRect)
        ensures
            r == self.scaled_of(),
    {
        FloatRect {
            x: self.x as i64 * SUBPIXEL,
            y: self.y as i64 * SUBPIXEL,
            w: self.w as i64 * SUBPIXEL,
            h: self.h as i64 * SUBPIXEL,
        }
    }
}

impl TileRect {
    pub open spec fn scaled_of(self) -> FloatRect {
        Bounds { x: self.x, y: self.y, w: self.w, h: self.h }.scaled_of()
    }

    pub fn scaled(&self) -> (r: FloatRect)
        ensures
            r == self.scaled_of(),
    {
        let b = Bounds { x: self.x, y: self.y, w: self.w, h: self.h };
        b.scaled()
    }
}

/// The window ids of a run of tiles, in order.
pub open spec fn tile_ids(rects: Seq<TileRect>) -> Seq<WindowId> {
    rects.map_values(|r: TileRect| r.id)
}

/// Monitors of that name.
pub open spec fn called(device: Seq<char>) -> spec_fn(Monitor) -> bool {
    |m: Monitor| m.device@ == device
}

/// Where the first monitor of that name stands.
pub open spec fn monitor_at(monitors: Seq<Monitor>, device: Seq<char>) -> Option<int> {
    first_where(monitors, called(device))
}

/// Find the monitor of that name.
pub fn find_monitor(monitors: &Vec<Monitor>, device: &String) -> (found: Option<usize>)
    ensures
        same_index(found, monitor_at(monitors@, device@)),
        found matches Some(i) ==> i < monitors@.len() && monitors@[i as int].device@ == device@,
{
    let mut i: usize = 0;
    while i < monitors.len()
        invariant
            i <= monitors@.len(),
            forall|j: int| 0 <= j < i ==> !called(device@)(#[trigger] monitors@[j]),
        decreases monitors@.len() - i,
    {
        if monitors[i].device == *device {
            proof {
                lemma_first_is(monitors@, called(device@), i as int);
            }
            return Some(i);
        }
        i = i + 1;
    }
    proof {
        lemma_first_none(monitors@, called(device@));
    }
    None
}

} // verus!

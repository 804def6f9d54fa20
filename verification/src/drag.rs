//! The end of a drag of a tiled window: drag-and-drop reordering.

use crate::effect::{DropPlace, Effect, FocusCause};
use crate::focus::{click_in_overview, leave_overviews};
use crate::geometry::{find_monitor, monitor_at, Bounds, TileRect, WindowId, SUBPIXEL};
use crate::laws::drops::law_drops_beside_land_next_to_their_anchor;
use crate::laws::lookup::is_spot;
use crate::layout::{Layout, Workspace};
use crate::search::{first_where, lemma_first_is, lemma_first_none};
use crate::slide::tiles_of;
use crate::state::{AppState, StateView};
use vstd::prelude::*;

verus! {

/// A window that moved less than this, in both directions, was clicked
/// and not dragged.
pub const NUDGE: i64 = 10;

/// What is seen when the user lets go of a tiled window.
#[derive(Debug)]
pub struct DropSight {
    /// Where the window is now.
    pub end: Option<Bounds>,
    /// Where the pointer is.
    pub cursor: Option<(i32, i32)>,
    /// The monitor under the pointer.
    pub cursor_device: Option<String>,
    /// The settled tiles of the workspace that the window's monitor
    /// shows.
    pub tiles: Vec<TileRect>,
}

/// The window was clicked, or nudged by accident.
pub open spec fn nudged(start: Option<Bounds>, end: Option<Bounds>) -> bool {
    &&& start is Some && end is Some
    &&& -NUDGE < start->0.x - end->0.x < NUDGE
    &&& -NUDGE < start->0.y - end->0.y < NUDGE
}

/// Tiles of column `c`, the dragged window left out.
pub open spec fn in_column(ws: Workspace, dragged: WindowId, c: int) -> spec_fn(TileRect) -> bool {
    |r: TileRect| r.id != dragged && ws.column_of(r.id) == Some(c)
}

/// The tiles on screen, column by column, the dragged window left out.
pub open spec fn columns_of(tiles: Seq<TileRect>, ws: Workspace, dragged: WindowId) -> Seq<
    Seq<TileRect>,
> {
    Seq::new(ws.columns@.len(), |c: int| tiles.filter(in_column(ws, dragged, c)))
}

/// No column left of this one has a tile.
pub open spec fn is_first(cols: Seq<Seq<TileRect>>, c: int) -> bool {
    forall|k: int| 0 <= k < c ==> (#[trigger] cols[k]).len() == 0
}

/// No column right of this one has a tile.
pub open spec fn is_last(cols: Seq<Seq<TileRect>>, c: int) -> bool {
    forall|k: int| c < k < cols.len() ==> (#[trigger] cols[k]).len() == 0
}

/// The abscissa is not left of the column. The first column reaches half
/// a gap further to the left.
pub open spec fn past_left(cols: Seq<Seq<TileRect>>, c: int, cx: i32, gap: i64) -> bool {
    2 * SUBPIXEL * cx >= 2 * SUBPIXEL * cols[c][0].x - (if is_first(cols, c) {
        gap as int
    } else {
        0
    })
}

/// The abscissa is right of the column. The last column reaches half a
/// gap further to the right.
pub open spec fn past_right(cols: Seq<Seq<TileRect>>, c: int, cx: i32, gap: i64) -> bool {
    2 * SUBPIXEL * cx >= 2 * SUBPIXEL * (cols[c][0].x + cols[c][0].w) + (if is_last(cols, c) {
        gap as int
    } else {
        0
    })
}

/// The abscissa is on the column.
pub open spec fn on_column(cols: Seq<Seq<TileRect>>, c: int, cx: i32, gap: i64) -> bool {
    cols[c].len() > 0 && past_left(cols, c, cx, gap) && !past_right(cols, c, cx, gap)
}

/// For each column, whether the abscissa is on it.
pub open spec fn hits(cols: Seq<Seq<TileRect>>, cx: i32, gap: i64) -> Seq<bool> {
    Seq::new(cols.len(), |c: int| on_column(cols, c, cx, gap))
}

pub open spec fn is_hit() -> spec_fn(bool) -> bool {
    |hit: bool| hit
}

/// Tiles whose middle lies below the ordinate.
pub open spec fn middle_below(cy: i32) -> spec_fn(TileRect) -> bool {
    |r: TileRect| 2 * cy < 2 * r.y + r.h
}

/// The first window of the last one of the first `n` columns that lies
/// left of the abscissa.
pub open spec fn last_left(cols: Seq<Seq<TileRect>>, n: int, cx: i32, gap: i64) -> Option<WindowId>
    decreases n,
{
    if n <= 0 {
        None
    } else if cols[n - 1].len() > 0 && past_right(cols, n - 1, cx, gap) {
        Some(cols[n - 1][0].id)
    } else {
        last_left(cols, n - 1, cx, gap)
    }
}

/// The slot of a column that the ordinate points at: above the first
/// tile whose middle lies below it, or at the bottom.
pub open spec fn slot_of(col: Seq<TileRect>, cy: i32) -> DropPlace {
    match first_where(col, middle_below(cy)) {
        Some(i) => DropPlace::Into { anchor: col[i].id, below: false },
        None => DropPlace::Into { anchor: col.last().id, below: true },
    }
}

/// Where a window let go at this point goes: into the column it is on,
/// or else to a column of its own, right of the last column that lies
/// left of the point. Half a gap outside of all columns still counts as
/// on the outermost one; the gap between two columns counts as neither.
pub open spec fn place_at(cols: Seq<Seq<TileRect>>, cx: i32, cy: i32, gap: i64) -> DropPlace {
    match first_where(hits(cols, cx, gap), is_hit()) {
        Some(c) => slot_of(cols[c], cy),
        None => DropPlace::Beside { after: last_left(cols, cols.len() as int, cx, gap) },
    }
}

/// The explicit width of the window's column.
pub open spec fn width_around(ws: Workspace, id: WindowId) -> Option<u64> {
    match ws.column_of(id) {
        Some(c) => ws.columns@[c].width,
        None => None,
    }
}

impl StateView {
    /// What a drag that was no click leads to.
    pub open spec fn dropped(self, id: WindowId, seen: DropSight, layout: Layout) -> Seq<Effect> {
        let source = layout.holder(id);
        if seen.cursor is None || source is None {
            seq![Effect::Reflow]
        } else {
            let device = source->0.device;
            if seen.cursor_device is Some && seen.cursor_device->0@ != device@ {
                seq![
                    Effect::RemoveWindow(id),
                    Effect::AddWindow { device: seen.cursor_device->0, id },
                    Effect::Reflow,
                ]
            } else {
                let at = layout.at(device@);
                if monitor_at(self.monitors, device@) is None || at is None
                    || at->0.active().fullscreen_id == Some(id) {
                    seq![Effect::Reflow]
                } else {
                    let ws = at->0.active();
                    let place = place_at(
                        columns_of(seen.tiles@, ws, id),
                        (seen.cursor->0).0,
                        (seen.cursor->0).1,
                        self.settings.gaps,
                    );
                    seq![
                        Effect::RemoveFromActive { device, id },
                        Effect::DropWindow { device, id, place, width: width_around(ws, id) },
                        Effect::UpdateFocusView(id),
                        Effect::Reflow,
                        Effect::SyncFocus,
                    ]
                }
            }
        }
    }

    /// What the end of a drag leads to. A click in the overview leaves
    /// it; any other click only puts the window back. While management
    /// is suspended nothing is moved and nothing is focused: the reflow
    /// that ends the suspension puts the window back.
    pub open spec fn drag_effects(self, id: WindowId, seen: DropSight, layout: Layout) -> Seq<
        Effect,
    > {
        if self.suspended {
            Seq::empty()
        } else if nudged(self.interact_start, seen.end) {
            if layout.in_overview(id) {
                leave_overviews(layout).push(
                    Effect::FocusWindow { id, cause: FocusCause::OverviewClick },
                )
            } else {
                seq![Effect::Reflow]
            }
        } else {
            self.dropped(id, seen, layout)
        }
    }
}

/// How the window is put back into the workspace that the monitor
/// shows, once it has been taken out of it.
pub open spec fn drop_effects(
    device: String,
    id: WindowId,
    place: DropPlace,
    width: Option<u64>,
    ws: Workspace,
) -> Seq<Effect> {
    match place {
        DropPlace::Into { anchor, below } => if ws.holds(anchor) {
            seq![
                Effect::AddToColumn {
                    device,
                    id,
                    column: ws.column_of(anchor)->0 as usize,
                    row: (ws.row_of(anchor) + if below {
                        1int
                    } else {
                        0int
                    }) as usize,
                },
            ]
        } else {
            seq![Effect::InsertColumn { device, id, column: ws.columns@.len() as usize }]
        },
        DropPlace::Beside { after } => {
            let column = if after is Some && ws.holds(after->0) {
                (ws.column_of(after->0)->0 + 1) as usize
            } else {
                0
            };
            seq![Effect::InsertColumn { device, id, column }] + match width {
                Some(code) => seq![Effect::SetWidth { device, column, code }],
                None => Seq::empty(),
            }
        },
    }
}

/// The tiles of one column, the dragged window left out.
fn list_column(tiles: &Vec<TileRect>, ws: &Workspace, dragged: WindowId, c: usize) -> (col: Vec<
    TileRect,
>)
    ensures
        col@ == tiles@.filter(in_column(*ws, dragged, c as int)),
{
    let mut col: Vec<TileRect> = Vec::new();
    let ghost p = in_column(*ws, dragged, c as int);
    let mut i: usize = 0;
    while i < tiles.len()
        invariant
            i <= tiles@.len(),
            p == in_column(*ws, dragged, c as int),
            col@ == tiles@.take(i as int).filter(p),
        decreases tiles@.len() - i,
    {
        let r: TileRect = tiles[i];
        proof {
            reveal(Seq::filter);
            assert(tiles@.take(i + 1).drop_last() =~= tiles@.take(i as int));
        }
        if r.id != dragged {
            if let Some((at, _row)) = ws.find(r.id) {
                if at == c {
                    col.push(r);
                }
            }
        }
        i = i + 1;
    }
    assert(tiles@.take(i as int) =~= tiles@);
    col
}

/// The slot of a column that the ordinate points at.
fn find_slot(col: &Vec<TileRect>, cy: i32) -> (place: DropPlace)
    requires
        col@.len() > 0,
    ensures
        place == slot_of(col@, cy),
{
    let mut i: usize = 0;
    while i < col.len()
        invariant
            i <= col@.len(),
            forall|k: int| 0 <= k < i ==> !middle_below(cy)(#[trigger] col@[k]),
        decreases col@.len() - i,
    {
        let r: TileRect = col[i];
        if 2 * (cy as i64) < 2 * (r.y as i64) + r.h as i64 {
            proof {
                lemma_first_is(col@, middle_below(cy), i as int);
            }
            return DropPlace::Into { anchor: r.id, below: false };
        }
        i = i + 1;
    }
    proof {
        lemma_first_none(col@, middle_below(cy));
    }
    DropPlace::Into { anchor: col[col.len() - 1].id, below: true }
}

/// The tiles on screen, column by column, the dragged window left out.
fn list_columns(tiles: &Vec<TileRect>, ws: &Workspace, dragged: WindowId) -> (cols: Vec<
    Vec<TileRect>,
>)
    ensures
        tiles_of(cols@) == columns_of(tiles@, *ws, dragged),
{
    let mut cols: Vec<Vec<TileRect>> = Vec::new();
    let mut c: usize = 0;
    while c < ws.columns.len()
        invariant
            c <= ws.columns@.len(),
            tiles_of(cols@) =~= columns_of(tiles@, *ws, dragged).take(c as int),
        decreases ws.columns@.len() - c,
    {
        let col = list_column(tiles, ws, dragged, c);
        let ghost before = cols@;
        cols.push(col);
        proof {
            assert(tiles_of(cols@) =~= tiles_of(before).push(col@));
        }
        c = c + 1;
    }
    assert(columns_of(tiles@, *ws, dragged).take(c as int) =~= columns_of(tiles@, *ws, dragged));
    cols
}

/// Is there a tile in any column from this one on?
fn any_tile(cols: &Vec<Vec<TileRect>>, from: usize) -> (b: bool)
    ensures
        b <==> exists|k: int| from <= k < cols@.len() && (#[trigger] tiles_of(cols@)[k]).len() > 0,
{
    let mut k: usize = from;
    while k < cols.len()
        invariant
            from <= k,
            forall|j: int|
                from <= j < k && j < cols@.len() ==> (#[trigger] tiles_of(cols@)[j]).len() == 0,
        decreases cols@.len() - k,
    {
        assert(tiles_of(cols@)[k as int] == cols@[k as int]@);
        if cols[k].len() > 0 {
            return true;
        }
        k = k + 1;
    }
    false
}

/// Decide where a window let go at this point goes. `gap` is the gap
/// between columns, in sub-pixels.
pub fn drop_place(
    id: WindowId,
    cursor: (i32, i32),
    tiles: &Vec<TileRect>,
    gap: i64,
    ws: &Workspace,
) -> (place: DropPlace)
    ensures
        place == place_at(columns_of(tiles@, *ws, id), cursor.0, cursor.1, gap),
{
    let cx: i32 = cursor.0;
    let lists = list_columns(tiles, ws, id);
    let mut left_of: Option<WindowId> = None;
    let mut first: bool = true;
    let ghost cols = tiles_of(lists@);
    let mut c: usize = 0;
    while c < lists.len()
        invariant
            c <= lists@.len(),
            cx == cursor.0,
            cols == tiles_of(lists@),
            cols == columns_of(tiles@, *ws, id),
            first <==> is_first(cols, c as int),
            forall|k: int| 0 <= k < c ==> !on_column(cols, k, cx, gap),
            left_of == last_left(cols, c as int, cx, gap),
        decreases lists@.len() - c,
    {
        let col = &lists[c];
        proof {
            assert(cols[c as int] == col@);
        }
        if col.len() > 0 {
            let last: bool = !any_tile(&lists, c + 1);
            assert(last <==> is_last(cols, c as int));
            let unit: i128 = 2 * SUBPIXEL as i128;
            let before: i128 = if first {
                gap as i128
            } else {
                0
            };
            let after: i128 = if last {
                gap as i128
            } else {
                0
            };
            let left: i128 = unit * col[0].x as i128 - before;
            let right: i128 = unit * (col[0].x as i128 + col[0].w as i128) + after;
            let at: i128 = unit * cx as i128;
            if at >= left && at < right {
                proof {
                    assert(hits(cols, cx, gap)[c as int]);
                    lemma_first_is(hits(cols, cx, gap), is_hit(), c as int);
                }
                return find_slot(col, cursor.1);
            }
            if at >= right {
                left_of = Some(col[0].id);
            }
            first = false;
        }
        c = c + 1;
    }
    proof {
        lemma_first_none(hits(cols, cx, gap), is_hit());
    }
    DropPlace::Beside { after: left_of }
}

/// Put a dragged window back into the workspace that its monitor shows,
/// at the place that was decided. `layout` is the layout without the
/// window. A column of its own keeps the width that it had.
pub fn drop_window(
    device: String,
    id: WindowId,
    place: DropPlace,
    width: Option<u64>,
    layout: &Layout,
) -> (effects: Vec<Effect>)
    requires
        layout.wf(),
    ensures
        effects@ == match layout.at(device@) {
            Some(m) => drop_effects(device, id, place, width, m.active()),
            None => Seq::<Effect>::empty(),
        },
        forall|anchor: WindowId, c: int, row: int|
            layout.at(device@) is Some && place == (DropPlace::Beside { after: Some(anchor) })
                && #[trigger] is_spot(layout.at(device@)->0.active(), anchor, c, row) ==> (
            effects@[0] matches Effect::InsertColumn { column, .. } && column == c + 1),
{
    let mut effects: Vec<Effect> = Vec::new();
    let ghost name = device;
    if let Some(m) = layout.monitor(&device) {
        let ws = m.active_workspace();
        match place {
            DropPlace::Into { anchor, below } => {
                match ws.find(anchor) {
                    Some((column, at)) => {
                        let row: usize = if below {
                            at + 1
                        } else {
                            at
                        };
                        effects.push(Effect::AddToColumn { device, id, column, row });
                    },
                    None => {
                        let column: usize = ws.columns.len();
                        effects.push(Effect::InsertColumn { device, id, column });
                    },
                }
            },
            DropPlace::Beside { after } => {
                let mut column: usize = 0;
                if let Some(anchor) = after {
                    if let Some((at, _row)) = ws.find(anchor) {
                        column = at + 1;
                    }
                }
                effects.push(Effect::InsertColumn { device: device.clone(), id, column });
                if let Some(code) = width {
                    effects.push(Effect::SetWidth { device, column, code });
                }
            },
        }
        proof {
            assert(effects@ =~= drop_effects(name, id, place, width, *ws));
            assert forall|anchor: WindowId, c: int, row: int|
                place == (DropPlace::Beside { after: Some(anchor) }) && #[trigger] is_spot(
                    *ws,
                    anchor,
                    c,
                    row,
                ) implies (effects@[0] matches Effect::InsertColumn { column, .. } && column == c
                + 1) by {
                law_drops_beside_land_next_to_their_anchor(
                    name,
                    id,
                    anchor,
                    width,
                    *ws,
                    c,
                    row,
                    ws.columns@[c],
                    0,
                );
            }
        }
    }
    effects
}

impl AppState {
    /// A drag of a tiled window ended. Dropping in the gap between
    /// columns makes a column of its own there (keeping its width);
    /// dropping onto a column, or half a gap outside of the outermost
    /// one, puts the window into its stack at the
    /// height the pointer is at; dropping on another monitor moves the
    /// window there.
    pub fn handle_tiled_drag_end(&mut self, id: WindowId, seen: DropSight, layout: &Layout) -> (
        effects: Vec<Effect>)
        requires
            layout.wf(),
        ensures
            final(self)@ == (StateView { interact_start: None, ..old(self)@ }),
            effects@ == old(self)@.drag_effects(id, seen, *layout),
            old(self).wf() ==> final(self).wf(),
    {
        let start = self.interact_start;
        self.interact_start = None;
        let mut effects: Vec<Effect> = Vec::new();
        if self.suspended {
            return effects;
        }
        if let (Some(s), Some(e)) = (start, seen.end) {
            let dx: i64 = s.x as i64 - e.x as i64;
            let dy: i64 = s.y as i64 - e.y as i64;
            if -NUDGE < dx && dx < NUDGE && -NUDGE < dy && dy < NUDGE {
                if let Some(handled) = click_in_overview(id, layout) {
                    return handled;
                }
                effects.push(Effect::Reflow);
                return effects;
            }
        }
        let cursor = match seen.cursor {
            Some(c) => c,
            None => {
                effects.push(Effect::Reflow);
                return effects;
            },
        };
        let device = match layout.device_of(id) {
            Some(d) => d,
            None => {
                effects.push(Effect::Reflow);
                return effects;
            },
        };
        if let Some(d) = seen.cursor_device {
            if d != device {
                effects.push(Effect::RemoveWindow(id));
                effects.push(Effect::AddWindow { device: d, id });
                effects.push(Effect::Reflow);
                return effects;
            }
        }
        if find_monitor(&self.monitors, &device).is_some() {
            if let Some(m) = layout.monitor(&device) {
                let ws = m.active_workspace();
                if ws.fullscreen_id != Some(id) {
                    let mut width: Option<u64> = None;
                    if let Some((c, _row)) = ws.find(id) {
                        width = ws.columns[c].width;
                    }
                    let place = drop_place(
                        id,
                        cursor,
                        &seen.tiles,
                        self.settings.gaps,
                        ws,
                    );
                    effects.push(Effect::RemoveFromActive { device: device.clone(), id });
                    effects.push(Effect::DropWindow { device, id, place, width });
                    effects.push(Effect::UpdateFocusView(id));
                    effects.push(Effect::Reflow);
                    effects.push(Effect::SyncFocus);
                    return effects;
                }
            }
        }
        effects.push(Effect::Reflow);
        effects
    }
}

} // verus!

//! What the end of a drag does: which place the point stands for, and
//! where in the workspace the window lands.

use crate::drag::{
    columns_of, drop_effects, hits, in_column, is_hit, is_last, last_left, middle_below, nudged,
    past_left, past_right, place_at, slot_of, DropSight,
};
use crate::effect::{DropPlace, Effect, FocusCause};
use crate::focus::leave_overviews;
use crate::geometry::{Bounds, TileRect, WindowId, SUBPIXEL};
use crate::laws::lookup::{
    is_first_on, is_home, is_homeless, is_known, is_spot, law_layouts_are_found_by_name,
    law_monitors_are_found_by_name, law_windows_are_found_in_the_layout,
    law_windows_are_found_on_a_monitor, law_windows_are_found_on_a_workspace, none_called,
    stands_on,
};
use crate::layout::{Column, Layout, MonitorLayout, Workspace};
use crate::search::{lemma_first_is, lemma_first_none};
use crate::state::StateView;
use vstd::prelude::*;

verus! {

/// A window dropped beside a window of the workspace becomes a column of
/// its own right after the column that has that window: every column up
/// to that one stands left of it, every later one right of it. The new
/// column keeps the width that it had.
pub proof fn law_drops_beside_land_next_to_their_anchor(
    device: String,
    id: WindowId,
    anchor: WindowId,
    width: Option<u64>,
    ws: Workspace,
    c: int,
    row: int,
    landed: Column,
    k: int,
)
    requires
        is_spot(ws, anchor, c, row),
    ensures
        ({
            let effects = drop_effects(
                device,
                id,
                DropPlace::Beside { after: Some(anchor) },
                width,
                ws,
            );
            &&& effects.len() == (if width is Some {
                2int
            } else {
                1
            })
            &&& effects[0] matches Effect::InsertColumn { device: d, id: x, column } && {
                let after = ws.columns@.insert(column as int, landed);
                &&& d == device
                &&& x == id
                &&& column == c + 1
                &&& after[column as int] == landed
                &&& 0 <= k <= c ==> after[k] == ws.columns@[k] && k < column
                &&& c < k < ws.columns@.len() ==> after[k + 1] == ws.columns@[k] && column < k + 1
            }
            &&& width matches Some(w) ==> effects[1] matches Effect::SetWidth {
                device: d,
                column,
                code,
            } && d == device && column == c + 1 && code == w
        }),
{
    law_windows_are_found_on_a_workspace(ws, anchor, c, row);
    assert(ws.columns.len() <= usize::MAX);
}

/// A window dropped beside none, or beside a window that the workspace
/// does not have, becomes its leftmost column.
pub proof fn law_drops_beside_nothing_land_leftmost(
    device: String,
    id: WindowId,
    after: Option<WindowId>,
    width: Option<u64>,
    ws: Workspace,
)
    requires
        after matches Some(anchor) ==> !stands_on(ws, anchor),
    ensures
        drop_effects(device, id, DropPlace::Beside { after }, width, ws) == match width {
            Some(code) => seq![
                Effect::InsertColumn { device, id, column: 0 },
                Effect::SetWidth { device, column: 0, code },
            ],
            None => seq![Effect::InsertColumn { device, id, column: 0 }],
        },
{
    if let Some(anchor) = after {
        law_windows_are_found_on_a_workspace(ws, anchor, 0, 0);
    }
    let effects = drop_effects(device, id, DropPlace::Beside { after }, width, ws);
    match width {
        Some(code) => {
            assert(effects =~= seq![
                Effect::InsertColumn { device, id, column: 0 },
                Effect::SetWidth { device, column: 0, code },
            ]);
        },
        None => {
            assert(effects =~= seq![Effect::InsertColumn { device, id, column: 0 }]);
        },
    }
}

/// A window dropped into a column goes into the column of its anchor, in
/// the anchor's row or in the one below it. If the anchor is gone, it
/// becomes the rightmost column.
pub proof fn law_drops_into_a_column_land_at_their_anchor(
    device: String,
    id: WindowId,
    anchor: WindowId,
    below: bool,
    width: Option<u64>,
    ws: Workspace,
    c: int,
    row: int,
)
    ensures
        ({
            let effects = drop_effects(device, id, DropPlace::Into { anchor, below }, width, ws);
            &&& effects.len() == 1
            &&& is_spot(ws, anchor, c, row) ==> (effects[0] matches Effect::AddToColumn {
                device: d,
                id: x,
                column,
                row: at,
            } && d == device && x == id && column == c && at == (if below {
                row + 1
            } else {
                row
            }))
            &&& !stands_on(ws, anchor) ==> (effects[0] matches Effect::InsertColumn {
                device: d,
                id: x,
                column,
            } && d == device && x == id && column == ws.columns@.len())
        }),
{
    law_windows_are_found_on_a_workspace(ws, anchor, c, row);
    assert(ws.columns.len() <= usize::MAX);
    if is_spot(ws, anchor, c, row) {
        assert(ws.columns@[c].tiles.len() <= usize::MAX);
    }
}

/// The slot of a column that a point stands for: above the first tile
/// whose middle lies below the point, or below the last tile.
pub proof fn law_height_picks_the_slot(col: Seq<TileRect>, cy: i32, i: int)
    requires
        col.len() > 0,
    ensures
        0 <= i < col.len() && 2 * cy < 2 * col[i].y + col[i].h && (forall|k: int|
            0 <= k < i ==> 2 * (#[trigger] col[k]).y + col[k].h <= 2 * cy) ==> slot_of(col, cy) == (
        DropPlace::Into { anchor: col[i].id, below: false }),
        (forall|k: int| 0 <= k < col.len() ==> 2 * (#[trigger] col[k]).y + col[k].h <= 2 * cy)
            ==> slot_of(col, cy) == (DropPlace::Into {
            anchor: col[col.len() - 1].id,
            below: true,
        }),
{
    let p = middle_below(cy);
    if 0 <= i < col.len() && 2 * cy < 2 * col[i].y + col[i].h && (forall|k: int|
        0 <= k < i ==> 2 * (#[trigger] col[k]).y + col[k].h <= 2 * cy) {
        lemma_first_is(col, p, i);
    }
    if forall|k: int| 0 <= k < col.len() ==> 2 * (#[trigger] col[k]).y + col[k].h <= 2 * cy {
        lemma_first_none(col, p);
    }
}

/// A window dropped onto a column, right of every earlier one, joins its
/// stack.
pub proof fn law_drops_on_a_column_join_it(
    cols: Seq<Seq<TileRect>>,
    a: int,
    cx: i32,
    cy: i32,
    gap: i64,
)
    requires
        0 <= a < cols.len(),
        cols[a].len() > 0,
        gap >= 0,
        cols[a][0].x <= cx < cols[a][0].x + cols[a][0].w,
        forall|c: int|
            0 <= c < a && (#[trigger] cols[c]).len() > 0 ==> cols[c][0].x + cols[c][0].w <= cx,
    ensures
        place_at(cols, cx, cy, gap) == slot_of(cols[a], cy),
{
    let on = hits(cols, cx, gap);
    let unit = 2 * SUBPIXEL;
    assert(unit == 2_000_000);
    let left = cols[a][0].x;
    let right = cols[a][0].x + cols[a][0].w;
    assert(unit * left <= unit * cx && unit * cx < unit * right) by (nonlinear_arith)
        requires
            unit > 0,
            left <= cx < right,
    ;
    assert(past_left(cols, a, cx, gap));
    assert(!past_right(cols, a, cx, gap));
    assert(on[a]);
    assert forall|c: int| 0 <= c < a implies !is_hit()(#[trigger] on[c]) by {
        if cols[c].len() > 0 {
            assert(!is_last(cols, c));
            let edge = cols[c][0].x + cols[c][0].w;
            assert(edge <= cx);
            assert(unit * cx >= unit * edge) by (nonlinear_arith)
                requires
                    unit > 0,
                    edge <= cx,
            ;
            assert(past_right(cols, c, cx, gap));
        }
    }
    lemma_first_is(on, is_hit(), a);
}

proof fn lemma_none_left(cols: Seq<Seq<TileRect>>, n: int, cx: i32, gap: i64)
    requires
        n <= cols.len(),
        forall|c: int|
            0 <= c < n && (#[trigger] cols[c]).len() > 0 ==> !past_right(cols, c, cx, gap),
    ensures
        last_left(cols, n, cx, gap) is None,
    decreases n,
{
    if n > 0 {
        assert(cols[n - 1].len() > 0 ==> !past_right(cols, n - 1, cx, gap));
        lemma_none_left(cols, n - 1, cx, gap);
    }
}

proof fn lemma_last_is(cols: Seq<Seq<TileRect>>, n: int, cx: i32, gap: i64, a: int)
    requires
        0 <= a < n <= cols.len(),
        cols[a].len() > 0,
        past_right(cols, a, cx, gap),
        forall|c: int| a < c < n ==> (#[trigger] cols[c]).len() == 0,
    ensures
        last_left(cols, n, cx, gap) == Some(cols[a][0].id),
    decreases n,
{
    if a < n - 1 {
        assert(cols[n - 1].len() == 0);
        lemma_last_is(cols, n - 1, cx, gap, a);
    }
}

/// A window dropped more than half a gap left of every column becomes
/// the leftmost column.
pub proof fn law_drops_left_of_everything(cols: Seq<Seq<TileRect>>, cx: i32, cy: i32, gap: i64)
    requires
        gap >= 0,
        forall|c: int|
            0 <= c < cols.len() && (#[trigger] cols[c]).len() > 0 ==> cols[c][0].w >= 0 && 2
                * SUBPIXEL * cx + gap < 2 * SUBPIXEL * cols[c][0].x,
    ensures
        place_at(cols, cx, cy, gap) == (DropPlace::Beside { after: None }),
{
    let on = hits(cols, cx, gap);
    assert forall|c: int| 0 <= c < on.len() implies !is_hit()(#[trigger] on[c]) by {
        if cols[c].len() > 0 {
            assert(!past_left(cols, c, cx, gap));
        }
    }
    lemma_first_none(on, is_hit());
    assert forall|c: int| 0 <= c < cols.len() && (#[trigger] cols[c]).len() > 0 implies !past_right(
        cols,
        c,
        cx,
        gap,
    ) by {
        assert(2 * SUBPIXEL * cx + gap < 2 * SUBPIXEL * cols[c][0].x);
    }
    lemma_none_left(cols, cols.len() as int, cx, gap);
}

/// A window dropped half a gap or more right of every column becomes the
/// rightmost column: it goes beside the last column that has a tile.
pub proof fn law_drops_right_of_everything(
    cols: Seq<Seq<TileRect>>,
    a: int,
    cx: i32,
    cy: i32,
    gap: i64,
)
    requires
        gap >= 0,
        0 <= a < cols.len(),
        cols[a].len() > 0,
        forall|c: int| a < c < cols.len() ==> (#[trigger] cols[c]).len() == 0,
        forall|c: int|
            0 <= c < cols.len() && (#[trigger] cols[c]).len() > 0 ==> 2 * SUBPIXEL * (cols[c][0].x
                + cols[c][0].w) + gap <= 2 * SUBPIXEL * cx,
    ensures
        place_at(cols, cx, cy, gap) == (DropPlace::Beside { after: Some(cols[a][0].id) }),
{
    let on = hits(cols, cx, gap);
    assert forall|c: int| 0 <= c < on.len() implies !is_hit()(#[trigger] on[c]) by {
        if cols[c].len() > 0 {
            assert(past_right(cols, c, cx, gap));
        }
    }
    lemma_first_none(on, is_hit());
    lemma_last_is(cols, cols.len() as int, cx, gap, a);
}

/// The columns that a point is held against are those of the workspace,
/// each with its own tiles, in the order in which they are seen; the
/// dragged window is in none.
pub proof fn law_columns_have_their_own_tiles(
    a: Seq<TileRect>,
    b: Seq<TileRect>,
    r: TileRect,
    ws: Workspace,
    dragged: WindowId,
    c: int,
    row: int,
)
    requires
        0 <= c < ws.columns@.len(),
    ensures
        columns_of(a, ws, dragged).len() == ws.columns@.len(),
        columns_of(a + b, ws, dragged)[c] == columns_of(a, ws, dragged)[c] + columns_of(
            b,
            ws,
            dragged,
        )[c],
        r.id != dragged && is_spot(ws, r.id, c, row) ==> {
            columns_of(seq![r], ws, dragged)[c] == seq![r]
        },
        columns_of(a, ws, dragged)[c].contains(r) ==> {
            &&& a.contains(r)
            &&& r.id != dragged
            &&& exists|y: int| is_spot(ws, r.id, c, y)
        },
{
    broadcast use vstd::seq_lib::group_filter_ensures;

    let p = in_column(ws, dragged, c);
    Seq::filter_distributes_over_add(a, b, p);
    law_windows_are_found_on_a_workspace(ws, r.id, c, row);
    if r.id != dragged && is_spot(ws, r.id, c, row) {
        reveal(Seq::filter);
        let one = seq![r];
        assert(one.drop_last() =~= Seq::<TileRect>::empty());
        assert(one.drop_last().filter(p) =~= Seq::<TileRect>::empty());
        assert(one.filter(p) =~= one);
    }
    let col = a.filter(p);
    if col.contains(r) {
        assert(p(col[col.index_of(r)]));
        a.lemma_filter_contains_rev(p, r);
        assert(is_spot(ws, r.id, c, ws.row_of(r.id)));
    }
}

/// A window that moved by less than ten pixels in both directions was
/// clicked, any other was dragged; so was one whose movement could not
/// be seen.
pub proof fn law_clicks_and_drags(start: Option<Bounds>, end: Option<Bounds>)
    ensures
        start is None || end is None ==> !nudged(start, end),
        start is Some && end is Some ==> {
            let s = start->0;
            let e = end->0;
            nudged(start, end) <==> s.x - e.x < 10 && e.x - s.x < 10 && s.y - e.y < 10 && e.y - s.y
                < 10
        },
{
}

/// The window is on the workspace that a monitor shows as an overview.
pub open spec fn in_an_overview(layout: Layout, id: WindowId) -> bool {
    exists|i: int|
        0 <= i < layout.monitors@.len() && shows_in_overview(#[trigger] layout.monitors@[i], id)
}

pub open spec fn shows_in_overview(m: MonitorLayout, id: WindowId) -> bool {
    &&& m.workspaces@[m.active_workspace_idx as int].is_overview
    &&& is_first_on(m, id, m.active_workspace_idx as int)
}

/// A click on a window in an overview leaves the overviews and focuses
/// the window; any other click only puts the window back.
pub proof fn law_clicks_put_the_window_back(
    v: StateView,
    id: WindowId,
    seen: DropSight,
    layout: Layout,
)
    requires
        !v.suspended,
        nudged(v.interact_start, seen.end),
    ensures
        in_an_overview(layout, id) ==> v.drag_effects(id, seen, layout) == leave_overviews(
            layout,
        ).push(Effect::FocusWindow { id, cause: FocusCause::OverviewClick }),
        !in_an_overview(layout, id) ==> v.drag_effects(id, seen, layout) == seq![Effect::Reflow],
{
    let s = layout.monitors@;
    assert forall|i: int| 0 <= i < s.len() implies shows_in_overview(#[trigger] s[i], id) == (
    s[i].active().is_overview && s[i].shows(id)) by {
        law_windows_are_found_on_a_monitor(s[i], id, 0);
    }
    if in_an_overview(layout, id) {
        let i = choose|i: int| 0 <= i < s.len() && shows_in_overview(#[trigger] s[i], id);
        assert(s[i].active().is_overview && s[i].shows(id));
        assert(layout.in_overview(id));
    }
    if layout.in_overview(id) {
        let i = choose|i: int|
            0 <= i < s.len() && (#[trigger] s[i]).active().is_overview && s[i].shows(id);
        assert(shows_in_overview(s[i], id));
    }
}

/// A window dragged onto another monitor is moved there, and all is
/// tiled; one that cannot be placed snaps back.
pub proof fn law_drags_to_another_monitor_move_there(
    v: StateView,
    id: WindowId,
    seen: DropSight,
    layout: Layout,
    i: int,
)
    requires
        !v.suspended,
        !nudged(v.interact_start, seen.end),
    ensures
        seen.cursor is None || is_homeless(layout, id) ==> v.drag_effects(id, seen, layout) == seq![
            Effect::Reflow,
        ],
        seen.cursor is Some && is_home(layout, id, i) && seen.cursor_device is Some
            && seen.cursor_device->0@ != layout.monitors@[i].device@ ==> v.drag_effects(
            id,
            seen,
            layout,
        ) == seq![
            Effect::RemoveWindow(id),
            Effect::AddWindow { device: seen.cursor_device->0, id },
            Effect::Reflow,
        ],
{
    law_windows_are_found_in_the_layout(layout, id, i);
}

/// A window dragged within its own monitor is taken out of the workspace
/// shown, put back at the place that the pointer stands for among the
/// other windows, with the width of the column it was in, and focused.
/// One that is in fullscreen there, or whose monitor is not known, snaps
/// back.
pub proof fn law_drags_at_home_reorder(
    v: StateView,
    id: WindowId,
    seen: DropSight,
    layout: Layout,
    i: int,
    j: int,
    c: int,
    row: int,
)
    requires
        !v.suspended,
        !nudged(v.interact_start, seen.end),
        seen.cursor is Some,
        is_home(layout, id, i),
        seen.cursor_device matches Some(d) ==> d@ == layout.monitors@[i].device@,
        is_known(layout, layout.monitors@[i].device@, j),
    ensures
        ({
            let device = layout.monitors@[i].device;
            let m = layout.monitors@[j];
            let ws = m.workspaces@[m.active_workspace_idx as int];
            let effects = v.drag_effects(id, seen, layout);
            let place = place_at(
                columns_of(seen.tiles@, ws, id),
                (seen.cursor->0).0,
                (seen.cursor->0).1,
                v.settings.gaps,
            );
            let back = none_called(v.monitors, device@) || ws.fullscreen_id == Some(id);
            &&& back ==> effects == seq![Effect::Reflow]
            &&& !back && is_spot(ws, id, c, row) ==> effects == seq![
                Effect::RemoveFromActive { device, id },
                Effect::DropWindow { device, id, place, width: ws.columns@[c].width },
                Effect::UpdateFocusView(id),
                Effect::Reflow,
                Effect::SyncFocus,
            ]
            &&& !back && !stands_on(ws, id) ==> effects == seq![
                Effect::RemoveFromActive { device, id },
                Effect::DropWindow { device, id, place, width: None },
                Effect::UpdateFocusView(id),
                Effect::Reflow,
                Effect::SyncFocus,
            ]
        }),
{
    let device = layout.monitors@[i].device;
    let m = layout.monitors@[j];
    let ws = m.workspaces@[m.active_workspace_idx as int];
    law_windows_are_found_in_the_layout(layout, id, i);
    law_layouts_are_found_by_name(layout, device@, j);
    law_monitors_are_found_by_name(v.monitors, device@, 0);
    law_windows_are_found_on_a_workspace(ws, id, c, row);
}

/// A window dropped in the gap between two columns that stand next to
/// each other lands between their windows: whatever the workspace is
/// once the window is taken out, the new column is right after the one
/// that has the first window left of the gap.
pub proof fn law_gap_drops_land_in_the_gap(
    cols: Seq<Seq<TileRect>>,
    a: int,
    b: int,
    cx: i32,
    cy: i32,
    gap: i64,
    device: String,
    id: WindowId,
    ws: Workspace,
    c: int,
    row: int,
)
    requires
        0 <= a < b < cols.len(),
        cols[a].len() > 0,
        cols[b].len() > 0,
        gap >= 0,
        forall|k: int|
            0 <= k <= a && (#[trigger] cols[k]).len() > 0 ==> cols[k][0].x + cols[k][0].w <= cx,
        forall|k: int|
            a < k < cols.len() && (#[trigger] cols[k]).len() > 0 ==> cx < cols[k][0].x
                && cols[k][0].w >= 0,
        is_spot(ws, cols[a][0].id, c, row),
    ensures
        ({
            let effects = drop_effects(device, id, place_at(cols, cx, cy, gap), None, ws);
            effects[0] matches Effect::InsertColumn { column, .. } && column == c + 1
        }),
{
    crate::laws::law_gap_makes_a_column_of_its_own(cols, a, b, cx, cy, gap);
    law_drops_beside_land_next_to_their_anchor(
        device,
        id,
        cols[a][0].id,
        None,
        ws,
        c,
        row,
        ws.columns@[c],
        0,
    );
}

} // verus!

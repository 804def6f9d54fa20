//! What a reflow does, window by window: who is sent where, who is
//! shown, hidden and raised, and what is remembered of it.

use crate::effect::{raise_all, retire_all, show_all, Effect};
use crate::geometry::{tile_ids, FloatRect, Monitor, TileRect, WindowId, SUBPIXEL};
use crate::laws::lookup::{
    is_known, is_unknown, law_layouts_are_found_by_name, law_windows_are_found_on_a_workspace,
    stands_on,
};
use crate::layout::{lemma_holds, Layout, Workspace};
use crate::reflow::{inactive_ids, outside, tile_targets};
use crate::search::lemma_first_where;
use crate::slide::{part_ids, PartView};
use crate::state::{lists, slide_on, StateView};
use vstd::prelude::*;

verus! {

/// The window has a tile in the list.
pub open spec fn tiled_in(rects: Seq<TileRect>, id: WindowId) -> bool {
    exists|k: int| 0 <= k < rects.len() && (#[trigger] rects[k]).id == id
}

/// Some participant of the slide has a tile for the window.
pub open spec fn takes_part(finals: Seq<PartView>, id: WindowId) -> bool {
    exists|p: int| 0 <= p < finals.len() && tiled_in((#[trigger] finals[p]).rects, id)
}

/// A slide on the monitor of that name moves the window.
pub open spec fn slides_along(v: StateView, device: Seq<char>, id: WindowId) -> bool {
    exists|s: int|
        0 <= s < v.slides.len() && (#[trigger] v.slides[s]).device == device && takes_part(
            v.slides[s].finals,
            id,
        )
}

/// The float is on the workspace that its monitor shows.
pub open spec fn is_afloat(v: StateView, layout: Layout, id: WindowId) -> bool {
    v.floating.contains_key(id) && exists|j: int| #[trigger]
        is_known(layout, v.floating[id].device@, j) && layout.monitors@[j].active_workspace_idx
            == v.floating[id].workspace_idx
}

/// Monitor `i` is number `j` of the layout, and tile `k` of those it
/// shows is one of the window.
pub open spec fn is_tile(
    v: StateView,
    tiles: Seq<Seq<TileRect>>,
    layout: Layout,
    id: WindowId,
    i: int,
    j: int,
    k: int,
) -> bool {
    &&& 0 <= i < v.monitors.len()
    &&& is_known(layout, v.monitors[i].device@, j)
    &&& 0 <= k < tiles[i].len()
    &&& tiles[i][k].id == id
}

/// The window has a tile on a monitor that the layout knows.
pub open spec fn is_shown(
    v: StateView,
    tiles: Seq<Seq<TileRect>>,
    layout: Layout,
    id: WindowId,
) -> bool {
    exists|i: int, j: int, k: int| is_tile(v, tiles, layout, id, i, j, k)
}

/// Monitor `i` is number `j` of the layout, and the window is on its
/// workspace `k`, which it does not show, and is not sliding there.
pub open spec fn is_elsewhere_at(
    v: StateView,
    layout: Layout,
    id: WindowId,
    i: int,
    j: int,
    k: int,
) -> bool {
    &&& 0 <= i < v.monitors.len()
    &&& is_known(layout, v.monitors[i].device@, j)
    &&& 0 <= k < layout.monitors@[j].workspaces@.len()
    &&& k != layout.monitors@[j].active_workspace_idx
    &&& stands_on(layout.monitors@[j].workspaces@[k], id)
    &&& !slides_along(v, v.monitors[i].device@, id)
}

/// The window is on a workspace that its monitor does not show, and is
/// not sliding.
pub open spec fn is_elsewhere(v: StateView, layout: Layout, id: WindowId) -> bool {
    exists|i: int, j: int, k: int| is_elsewhere_at(v, layout, id, i, j, k)
}

/// The window is the fullscreen one of the workspace that a known
/// monitor shows.
pub open spec fn is_fullscreen_at(
    v: StateView,
    layout: Layout,
    id: WindowId,
    i: int,
    j: int,
) -> bool {
    &&& 0 <= i < v.monitors.len()
    &&& is_known(layout, v.monitors[i].device@, j)
    &&& {
        let m = layout.monitors@[j];
        m.workspaces@[m.active_workspace_idx as int].fullscreen_id == Some(id)
    }
}

pub open spec fn is_fullscreen(v: StateView, layout: Layout, id: WindowId) -> bool {
    exists|i: int, j: int| is_fullscreen_at(v, layout, id, i, j)
}

/// The window is sent to that rectangle for its tile on monitor `i`: the
/// tile, or the whole of that monitor if it is the fullscreen window
/// there. It is not sent if it slides there.
pub open spec fn is_sent(
    v: StateView,
    tiles: Seq<Seq<TileRect>>,
    layout: Layout,
    id: WindowId,
    rect: FloatRect,
    i: int,
    j: int,
    k: int,
) -> bool {
    &&& is_tile(v, tiles, layout, id, i, j, k)
    &&& !slides_along(v, v.monitors[i].device@, id)
    &&& rect == (if is_fullscreen_at(v, layout, id, i, j) {
        v.monitors[i].full.scaled_of()
    } else {
        tiles[i][k].scaled_of()
    })
}

/// `a` or `b` has what `a + b` has.
pub proof fn lemma_joined<T>(a: Seq<T>, b: Seq<T>, x: T)
    ensures
        (a + b).contains(x) <==> a.contains(x) || b.contains(x),
{
    if a.contains(x) {
        assert((a + b)[a.index_of(x)] == x);
    }
    if b.contains(x) {
        assert((a + b)[a.len() + b.index_of(x)] == x);
    }
    if (a + b).contains(x) {
        let i = (a + b).index_of(x);
        if i < a.len() {
            assert(a[i] == x);
        } else {
            assert(b[i - a.len()] == x);
        }
    }
}

/// A list of tiles has a window exactly when one of its tiles is the
/// window's.
pub proof fn lemma_tile_ids(rects: Seq<TileRect>, id: WindowId)
    ensures
        tile_ids(rects).contains(id) <==> tiled_in(rects, id),
{
    if tile_ids(rects).contains(id) {
        let k = tile_ids(rects).index_of(id);
        assert(rects[k].id == id);
    }
    if tiled_in(rects, id) {
        let k = choose|k: int| 0 <= k < rects.len() && (#[trigger] rects[k]).id == id;
        assert(tile_ids(rects)[k] == id);
    }
}

/// A slide has a window exactly when one of its participants has.
pub proof fn lemma_part_ids(finals: Seq<PartView>, id: WindowId)
    ensures
        part_ids(finals).contains(id) <==> takes_part(finals, id),
    decreases finals.len(),
{
    if finals.len() > 0 {
        let t = finals.drop_last();
        lemma_part_ids(t, id);
        lemma_tile_ids(finals.last().rects, id);
        lemma_joined(part_ids(t), tile_ids(finals.last().rects), id);
        if takes_part(t, id) {
            let p = choose|p: int| 0 <= p < t.len() && tiled_in((#[trigger] t[p]).rects, id);
            assert(finals[p] == t[p]);
        }
        if tiled_in(finals.last().rects, id) {
            assert(tiled_in(finals[finals.len() - 1].rects, id));
        }
        if takes_part(finals, id) {
            let p = choose|p: int|
                0 <= p < finals.len() && tiled_in((#[trigger] finals[p]).rects, id);
            if p < t.len() {
                assert(t[p] == finals[p]);
            }
        }
    }
}

/// A window slides on a monitor exactly when the monitor's slide has it.
pub proof fn law_sliding_is_taking_part(v: StateView, device: Seq<char>, id: WindowId)
    requires
        v.wf(),
    ensures
        v.sliding(device).contains(id) <==> slides_along(v, device, id),
{
    let p = slide_on(device);
    lemma_first_where(v.slides, p);
    match v.slide_at(device) {
        Some(i) => {
            lemma_part_ids(v.slides[i].finals, id);
            if slides_along(v, device, id) {
                let s = choose|s: int|
                    0 <= s < v.slides.len() && (#[trigger] v.slides[s]).device == device
                        && takes_part(v.slides[s].finals, id);
                assert(v.slides[s].device == v.slides[i].device);
                assert(s == i);
            }
        },
        None => {
            if slides_along(v, device, id) {
                let s = choose|s: int|
                    0 <= s < v.slides.len() && (#[trigger] v.slides[s]).device == device
                        && takes_part(v.slides[s].finals, id);
                assert(p(v.slides[s]));
            }
        },
    }
}

/// A float is on view exactly when its monitor shows its workspace.
pub proof fn law_floats_on_view_are_afloat(v: StateView, layout: Layout, id: WindowId)
    ensures
        v.float_on_view(id, layout) <==> is_afloat(v, layout, id),
{
    if v.floating.contains_key(id) {
        let d = v.floating[id].device@;
        law_layouts_are_found_by_name(layout, d, 0);
        if layout.at(d) is Some {
            let j = choose|j: int| is_known(layout, d, j);
            law_layouts_are_found_by_name(layout, d, j);
        }
        if is_afloat(v, layout, id) {
            let j = choose|j: int| #[trigger]
                is_known(layout, d, j) && layout.monitors@[j].active_workspace_idx
                    == v.floating[id].workspace_idx;
            law_layouts_are_found_by_name(layout, d, j);
        }
    }
}

spec fn sends(
    v: StateView,
    monitors: Seq<Monitor>,
    tiles: Seq<Seq<TileRect>>,
    layout: Layout,
    e: Effect,
    i: int,
    k: int,
) -> bool {
    &&& 0 <= i < monitors.len()
    &&& layout.at(monitors[i].device@) is Some
    &&& 0 <= k < tiles[i].len()
    &&& !v.sliding(monitors[i].device@).contains(tiles[i][k].id)
    &&& e == (Effect::SetTarget {
        id: tiles[i][k].id,
        rect: if layout.at(monitors[i].device@)->0.active().fullscreen_id == Some(tiles[i][k].id) {
            monitors[i].full.scaled_of()
        } else {
            tiles[i][k].scaled_of()
        },
    })
}

proof fn lemma_tile_targets(
    v: StateView,
    monitors: Seq<Monitor>,
    all: Seq<Seq<TileRect>>,
    layout: Layout,
    e: Effect,
    i: int,
    n: int,
)
    requires
        0 <= i < monitors.len(),
        layout.at(monitors[i].device@) is Some,
        0 <= n <= all[i].len(),
    ensures
        tile_targets(
            all[i].take(n),
            layout.at(monitors[i].device@)->0.active().fullscreen_id,
            monitors[i].full,
            v.sliding(monitors[i].device@),
        ).contains(e) <==> exists|k: int|
            k < n && #[trigger] sends(v, monitors, all, layout, e, i, k),
    decreases n,
{
    let fs = layout.at(monitors[i].device@)->0.active().fullscreen_id;
    let sliding = v.sliding(monitors[i].device@);
    let full = monitors[i].full;
    let rects = all[i].take(n);
    let whole = tile_targets(rects, fs, full, sliding);
    if n > 0 {
        lemma_tile_targets(v, monitors, all, layout, e, i, n - 1);
        assert(rects.drop_last() =~= all[i].take(n - 1));
        let sofar = tile_targets(all[i].take(n - 1), fs, full, sliding);
        let r = all[i][n - 1];
        assert(rects.last() == r);
        if !sliding.contains(r.id) {
            let last = Effect::SetTarget {
                id: r.id,
                rect: if fs == Some(r.id) {
                    full.scaled_of()
                } else {
                    r.scaled_of()
                },
            };
            assert(whole =~= sofar + seq![last]);
            lemma_joined(sofar, seq![last], e);
            if e == last {
                assert(seq![last][0] == e);
                assert(sends(v, monitors, all, layout, e, i, n - 1));
            }
        }
        if exists|k: int| k < n && #[trigger] sends(v, monitors, all, layout, e, i, k) {
            let k = choose|k: int| k < n && #[trigger] sends(v, monitors, all, layout, e, i, k);
            if k == n - 1 {
                assert(whole.last() == e);
                assert(whole[whole.len() - 1] == e);
            } else {
                assert(sends(v, monitors, all, layout, e, i, k));
            }
        }
        if sofar.contains(e) {
            let k = choose|k: int|
                k < n - 1 && #[trigger] sends(v, monitors, all, layout, e, i, k);
            assert(sends(v, monitors, all, layout, e, i, k));
        }
    }
}

proof fn lemma_targets(
    v: StateView,
    monitors: Seq<Monitor>,
    tiles: Seq<Seq<TileRect>>,
    layout: Layout,
    e: Effect,
)
    requires
        tiles.len() == monitors.len(),
    ensures
        v.targets(monitors, tiles, layout).contains(e) <==> exists|i: int, k: int|
            sends(v, monitors, tiles, layout, e, i, k),
    decreases monitors.len(),
{
    if monitors.len() > 0 {
        let n = monitors.len() - 1;
        let ms = monitors.drop_last();
        let ts = tiles.drop_last();
        lemma_targets(v, ms, ts, layout, e);
        assert forall|i: int, k: int| i < n implies #[trigger] sends(v, ms, ts, layout, e, i, k)
            == sends(v, monitors, tiles, layout, e, i, k) by {
            if 0 <= i {
                assert(ms[i] == monitors[i]);
                assert(ts[i] == tiles[i]);
            }
        }
        let sofar = v.targets(ms, ts, layout);
        let device = monitors.last().device@;
        if layout.at(device) is Some {
            lemma_tile_targets(v, monitors, tiles, layout, e, n, tiles[n].len() as int);
            assert(tiles[n].take(tiles[n].len() as int) =~= tiles.last());
            let more = tile_targets(
                tiles.last(),
                layout.at(device)->0.active().fullscreen_id,
                monitors.last().full,
                v.sliding(device),
            );
            lemma_joined(sofar, more, e);
        }
        if exists|i: int, k: int| sends(v, ms, ts, layout, e, i, k) {
            let (i, k) = choose|i: int, k: int| sends(v, ms, ts, layout, e, i, k);
            assert(sends(v, monitors, tiles, layout, e, i, k));
        }
        if exists|i: int, k: int| sends(v, monitors, tiles, layout, e, i, k) {
            let (i, k) = choose|i: int, k: int| sends(v, monitors, tiles, layout, e, i, k);
            if i < n {
                assert(sends(v, ms, ts, layout, e, i, k));
            } else {
                assert(k < tiles[n].len() as int);
                assert(sends(v, monitors, tiles, layout, e, n, k));
            }
        }
    }
}

spec fn parked(
    v: StateView,
    monitors: Seq<Monitor>,
    layout: Layout,
    id: WindowId,
    i: int,
    k: int,
) -> bool {
    &&& 0 <= i < monitors.len()
    &&& layout.at(monitors[i].device@) matches Some(m) && 0 <= k < m.workspaces@.len() && k
        != m.active_workspace_idx && stands_on(m.workspaces@[k], id)
    &&& !v.sliding(monitors[i].device@).contains(id)
}

proof fn lemma_inactive(
    workspaces: Seq<Workspace>,
    active: int,
    sliding: Seq<WindowId>,
    id: WindowId,
)
    ensures
        inactive_ids(workspaces, active, sliding).contains(id) <==> !sliding.contains(id)
            && exists|k: int|
            0 <= k < workspaces.len() && k != active && stands_on(#[trigger] workspaces[k], id),
    decreases workspaces.len(),
{
    broadcast use vstd::seq_lib::group_filter_ensures;

    if workspaces.len() > 0 {
        let n = workspaces.len() - 1;
        let t = workspaces.drop_last();
        lemma_inactive(t, active, sliding, id);
        let ids = workspaces.last().ids();
        let more = ids.filter(outside(sliding));
        lemma_joined(inactive_ids(t, active, sliding), more, id);
        lemma_holds(workspaces.last(), id);
        law_windows_are_found_on_a_workspace(workspaces.last(), id, 0, 0);
        if ids.contains(id) && !sliding.contains(id) {
            assert(outside(sliding)(ids[ids.index_of(id)]));
        }
        if more.contains(id) {
            assert(outside(sliding)(more[more.index_of(id)]));
            ids.lemma_filter_contains_rev(outside(sliding), id);
        }
        if exists|k: int|
            0 <= k < workspaces.len() && k != active && stands_on(
                #[trigger] workspaces[k],
                id,
            ) {
            let k = choose|k: int|
                0 <= k < workspaces.len() && k != active && stands_on(#[trigger] workspaces[k], id);
            if k < n {
                assert(t[k] == workspaces[k]);
            }
        }
        if exists|k: int| 0 <= k < t.len() && k != active && stands_on(#[trigger] t[k], id) {
            let k = choose|k: int|
                0 <= k < t.len() && k != active && stands_on(#[trigger] t[k], id);
            assert(t[k] == workspaces[k]);
        }
        if n != active && stands_on(workspaces.last(), id) {
            assert(stands_on(workspaces[n], id));
        }
    }
}

proof fn lemma_hides(v: StateView, monitors: Seq<Monitor>, layout: Layout, id: WindowId)
    ensures
        v.hides(monitors, layout).contains(id) <==> exists|i: int, k: int|
            parked(v, monitors, layout, id, i, k),
    decreases monitors.len(),
{
    if monitors.len() > 0 {
        let n = monitors.len() - 1;
        let ms = monitors.drop_last();
        lemma_hides(v, ms, layout, id);
        assert forall|i: int, k: int| i < n implies #[trigger] parked(v, ms, layout, id, i, k)
            == parked(v, monitors, layout, id, i, k) by {
            if 0 <= i {
                assert(ms[i] == monitors[i]);
            }
        }
        let device = monitors.last().device@;
        if let Some(m) = layout.at(device) {
            let active = m.active_workspace_idx as int;
            lemma_inactive(m.workspaces@, active, v.sliding(device), id);
            let more = inactive_ids(m.workspaces@, active, v.sliding(device));
            lemma_joined(v.hides(ms, layout), more, id);
            if more.contains(id) {
                let k = choose|k: int|
                    0 <= k < m.workspaces@.len() && k != active && stands_on(
                        #[trigger] m.workspaces@[k],
                        id,
                    );
                assert(parked(v, monitors, layout, id, n, k));
            }
        }
        if exists|i: int, k: int| parked(v, ms, layout, id, i, k) {
            let (i, k) = choose|i: int, k: int| parked(v, ms, layout, id, i, k);
            assert(parked(v, monitors, layout, id, i, k));
        }
        if exists|i: int, k: int| parked(v, monitors, layout, id, i, k) {
            let (i, k) = choose|i: int, k: int| parked(v, monitors, layout, id, i, k);
            if i < n {
                assert(parked(v, ms, layout, id, i, k));
            } else {
                assert(stands_on(layout.at(device)->0.workspaces@[k], id));
            }
        }
    }
}

spec fn displays(
    monitors: Seq<Monitor>,
    tiles: Seq<Seq<TileRect>>,
    layout: Layout,
    id: WindowId,
    i: int,
) -> bool {
    &&& 0 <= i < monitors.len()
    &&& layout.at(monitors[i].device@) is Some
    &&& tiled_in(tiles[i], id)
}

proof fn lemma_shows(
    v: StateView,
    monitors: Seq<Monitor>,
    tiles: Seq<Seq<TileRect>>,
    layout: Layout,
    id: WindowId,
)
    requires
        tiles.len() == monitors.len(),
    ensures
        v.shows(monitors, tiles, layout).contains(id) <==> exists|i: int|
            displays(monitors, tiles, layout, id, i),
    decreases monitors.len(),
{
    if monitors.len() > 0 {
        let n = monitors.len() - 1;
        let ms = monitors.drop_last();
        let ts = tiles.drop_last();
        lemma_shows(v, ms, ts, layout, id);
        lemma_tile_ids(tiles.last(), id);
        lemma_joined(v.shows(ms, ts, layout), tile_ids(tiles.last()), id);
        assert forall|i: int| i < n implies #[trigger] displays(ms, ts, layout, id, i) == displays(
            monitors,
            tiles,
            layout,
            id,
            i,
        ) by {
            if 0 <= i {
                assert(ms[i] == monitors[i]);
                assert(ts[i] == tiles[i]);
            }
        }
        if exists|i: int| displays(ms, ts, layout, id, i) {
            let i = choose|i: int| displays(ms, ts, layout, id, i);
            assert(displays(monitors, tiles, layout, id, i));
        }
        if layout.at(monitors.last().device@) is Some && tiled_in(tiles.last(), id) {
            assert(displays(monitors, tiles, layout, id, n));
        }
        if exists|i: int| displays(monitors, tiles, layout, id, i) {
            let i = choose|i: int| displays(monitors, tiles, layout, id, i);
            if i < n {
                assert(displays(ms, ts, layout, id, i));
            }
        }
    }
}

spec fn covers(monitors: Seq<Monitor>, layout: Layout, id: WindowId, i: int) -> bool {
    &&& 0 <= i < monitors.len()
    &&& layout.at(monitors[i].device@) matches Some(m) && m.active().fullscreen_id == Some(id)
}

proof fn lemma_raises(v: StateView, monitors: Seq<Monitor>, layout: Layout, id: WindowId)
    ensures
        v.raises(monitors, layout).contains(id) <==> exists|i: int|
            covers(monitors, layout, id, i),
    decreases monitors.len(),
{
    if monitors.len() > 0 {
        let n = monitors.len() - 1;
        let ms = monitors.drop_last();
        lemma_raises(v, ms, layout, id);
        let sofar = v.raises(ms, layout);
        let whole = v.raises(monitors, layout);
        assert forall|i: int| i < n implies #[trigger] covers(ms, layout, id, i) == covers(
            monitors,
            layout,
            id,
            i,
        ) by {
            if 0 <= i {
                assert(ms[i] == monitors[i]);
            }
        }
        if let Some(m) = layout.at(monitors.last().device@) {
            if let Some(f) = m.active().fullscreen_id {
                assert(whole =~= sofar + seq![f]);
                lemma_joined(sofar, seq![f], id);
                if f == id {
                    assert(seq![f][0] == id);
                    assert(covers(monitors, layout, id, n));
                }
            }
        }
        if exists|i: int| covers(ms, layout, id, i) {
            let i = choose|i: int| covers(ms, layout, id, i);
            assert(covers(monitors, layout, id, i));
        }
        if exists|i: int| covers(monitors, layout, id, i) {
            let i = choose|i: int| covers(monitors, layout, id, i);
            if i < n {
                assert(covers(ms, layout, id, i));
            }
        }
    }
}

spec fn float_part(v: StateView, layout: Layout, id: WindowId, e: Effect) -> bool {
    if v.float_on_view(id, layout) {
        ||| e == Effect::Show(id)
        ||| e == Effect::Raise(id)
        ||| e == (Effect::SetTarget { id, rect: v.floating[id].rect })
    } else {
        e == Effect::Hide(id) || e == Effect::RemoveAnimation(id)
    }
}

proof fn lemma_float_effects(v: StateView, order: Seq<WindowId>, layout: Layout, e: Effect)
    ensures
        v.float_effects(order, layout).contains(e) <==> exists|k: int|
            0 <= k < order.len() && float_part(v, layout, #[trigger] order[k], e),
    decreases order.len(),
{
    if order.len() > 0 {
        let n = order.len() - 1;
        let t = order.drop_last();
        lemma_float_effects(v, t, layout, e);
        let sofar = v.float_effects(t, layout);
        let id = order.last();
        let more = if v.float_on_view(id, layout) {
            seq![
                Effect::Show(id),
                Effect::Raise(id),
                Effect::SetTarget { id, rect: v.floating[id].rect },
            ]
        } else {
            seq![Effect::Hide(id), Effect::RemoveAnimation(id)]
        };
        assert(v.float_effects(order, layout) =~= sofar + more);
        lemma_joined(sofar, more, e);
        assert(more.contains(e) <==> float_part(v, layout, id, e)) by {
            if v.float_on_view(id, layout) {
                assert(more[0] == Effect::Show(id));
                assert(more[1] == Effect::Raise(id));
                assert(more[2] == (Effect::SetTarget { id, rect: v.floating[id].rect }));
            } else {
                assert(more[0] == Effect::Hide(id));
                assert(more[1] == Effect::RemoveAnimation(id));
            }
            if more.contains(e) {
                let k = more.index_of(e);
                assert(k == 0 || k == 1 || k == 2);
            }
        }
        if sofar.contains(e) {
            let k = choose|k: int| 0 <= k < t.len() && float_part(v, layout, #[trigger] t[k], e);
            assert(order[k] == t[k]);
        }
        if more.contains(e) {
            assert(float_part(v, layout, order[n], e));
        }
        if exists|k: int| 0 <= k < order.len() && float_part(v, layout, #[trigger] order[k], e) {
            let k = choose|k: int|
                0 <= k < order.len() && float_part(v, layout, #[trigger] order[k], e);
            if k < n {
                assert(t[k] == order[k]);
            }
        }
    }
}

proof fn lemma_float_part(
    v: StateView,
    order: Seq<WindowId>,
    layout: Layout,
    id: WindowId,
    e: Effect,
)
    requires
        lists(order, v.floating.dom()),
        e == Effect::Show(id) || e == Effect::Raise(id) || e == Effect::Hide(id) || e
            == Effect::RemoveAnimation(id) || (e matches Effect::SetTarget { id: x, .. } && x
            == id),
    ensures
        v.float_effects(order, layout).contains(e) <==> v.floating.contains_key(id) && float_part(
            v,
            layout,
            id,
            e,
        ),
{
    lemma_float_effects(v, order, layout, e);
    assert(order.to_set().contains(id) <==> v.floating.dom().contains(id));
    if v.floating.contains_key(id) && float_part(v, layout, id, e) {
        assert(order[order.index_of(id)] == id);
    }
    if v.float_effects(order, layout).contains(e) {
        let k = choose|k: int|
            0 <= k < order.len() && float_part(v, layout, #[trigger] order[k], e);
        assert(order[k] == id);
        assert(order.contains(id));
    }
}

proof fn lemma_retire(ids: Seq<WindowId>, e: Effect)
    ensures
        retire_all(ids).contains(e) <==> exists|k: int|
            0 <= k < ids.len() && (e == Effect::Hide(#[trigger] ids[k]) || e
                == Effect::RemoveAnimation(ids[k])),
    decreases ids.len(),
{
    if ids.len() > 0 {
        let n = ids.len() - 1;
        let t = ids.drop_last();
        lemma_retire(t, e);
        let more = seq![Effect::Hide(ids.last()), Effect::RemoveAnimation(ids.last())];
        assert(more[0] == Effect::Hide(ids[n]));
        assert(more[1] == Effect::RemoveAnimation(ids[n]));
        lemma_joined(retire_all(t), more, e);
        if exists|k: int|
            0 <= k < t.len() && (e == Effect::Hide(#[trigger] t[k]) || e
                == Effect::RemoveAnimation(t[k])) {
            let k = choose|k: int|
                0 <= k < t.len() && (e == Effect::Hide(#[trigger] t[k]) || e
                    == Effect::RemoveAnimation(t[k]));
            assert(ids[k] == t[k]);
        }
        if more.contains(e) {
            let k = more.index_of(e);
            assert(k == 0 || k == 1);
            assert(e == Effect::Hide(ids[n]) || e == Effect::RemoveAnimation(ids[n]));
        }
        if exists|k: int|
            0 <= k < ids.len() && (e == Effect::Hide(#[trigger] ids[k]) || e
                == Effect::RemoveAnimation(ids[k])) {
            let k = choose|k: int|
                0 <= k < ids.len() && (e == Effect::Hide(#[trigger] ids[k]) || e
                    == Effect::RemoveAnimation(ids[k]));
            if k < n {
                assert(t[k] == ids[k]);
            }
        }
    }
}

proof fn lemma_mapped(ids: Seq<WindowId>, id: WindowId)
    ensures
        show_all(ids).contains(Effect::Show(id)) <==> ids.contains(id),
        raise_all(ids).contains(Effect::Raise(id)) <==> ids.contains(id),
{
    if ids.contains(id) {
        let k = ids.index_of(id);
        assert(show_all(ids)[k] == Effect::Show(id));
        assert(raise_all(ids)[k] == Effect::Raise(id));
    }
    if show_all(ids).contains(Effect::Show(id)) {
        let k = show_all(ids).index_of(Effect::Show(id));
        assert(ids[k] == id);
    }
    if raise_all(ids).contains(Effect::Raise(id)) {
        let k = raise_all(ids).index_of(Effect::Raise(id));
        assert(ids[k] == id);
    }
}

spec fn tail(v: StateView, layout: Layout) -> Seq<Effect> {
    (if v.raises(v.monitors, layout).len() > 0 {
        seq![Effect::RaiseBars]
    } else {
        Seq::empty()
    }) + seq![Effect::TickAnimations, Effect::UpdateFocusBorder]
}

proof fn lemma_reflow(
    v: StateView,
    order: Seq<WindowId>,
    tiles: Seq<Seq<TileRect>>,
    layout: Layout,
    e: Effect,
)
    requires
        !v.paused(),
    ensures
        v.reflow_effects(order, tiles, layout) == v.float_effects(order, layout) + retire_all(
            v.hides(v.monitors, layout),
        ) + show_all(v.shows(v.monitors, tiles, layout)) + v.targets(v.monitors, tiles, layout)
            + raise_all(v.raises(v.monitors, layout)) + tail(v, layout),
        v.reflow_effects(order, tiles, layout).contains(e) <==> {
            ||| v.float_effects(order, layout).contains(e)
            ||| retire_all(v.hides(v.monitors, layout)).contains(e)
            ||| show_all(v.shows(v.monitors, tiles, layout)).contains(e)
            ||| v.targets(v.monitors, tiles, layout).contains(e)
            ||| raise_all(v.raises(v.monitors, layout)).contains(e)
            ||| tail(v, layout).contains(e)
        },
{
    let e1 = v.float_effects(order, layout);
    let e2 = retire_all(v.hides(v.monitors, layout));
    let e3 = show_all(v.shows(v.monitors, tiles, layout));
    let e4 = v.targets(v.monitors, tiles, layout);
    let e5 = raise_all(v.raises(v.monitors, layout));
    let e6 = tail(v, layout);
    let all = v.reflow_effects(order, tiles, layout);
    assert(all =~= e1 + e2 + e3 + e4 + e5 + e6);
    lemma_joined(e1 + e2 + e3 + e4 + e5, e6, e);
    lemma_joined(e1 + e2 + e3 + e4, e5, e);
    lemma_joined(e1 + e2 + e3, e4, e);
    lemma_joined(e1 + e2, e3, e);
    lemma_joined(e1, e2, e);
}

proof fn lemma_known(layout: Layout, device: Seq<char>) -> (j: int)
    requires
        layout.at(device) is Some,
    ensures
        is_known(layout, device, j),
        layout.at(device) == Some(layout.monitors@[j]),
{
    law_layouts_are_found_by_name(layout, device, 0);
    let j = choose|j: int| is_known(layout, device, j);
    law_layouts_are_found_by_name(layout, device, j);
    j
}

proof fn lemma_shown(
    v: StateView,
    tiles: Seq<Seq<TileRect>>,
    layout: Layout,
    id: WindowId,
)
    requires
        tiles.len() == v.monitors.len(),
    ensures
        v.shows(v.monitors, tiles, layout).contains(id) <==> is_shown(v, tiles, layout, id),
{
    lemma_shows(v, v.monitors, tiles, layout, id);
    if exists|i: int| displays(v.monitors, tiles, layout, id, i) {
        let i = choose|i: int| displays(v.monitors, tiles, layout, id, i);
        let j = lemma_known(layout, v.monitors[i].device@);
        let k = choose|k: int| 0 <= k < tiles[i].len() && (#[trigger] tiles[i][k]).id == id;
        assert(is_tile(v, tiles, layout, id, i, j, k));
    }
    if is_shown(v, tiles, layout, id) {
        let (i, j, k) = choose|i: int, j: int, k: int| is_tile(v, tiles, layout, id, i, j, k);
        law_layouts_are_found_by_name(layout, v.monitors[i].device@, j);
        assert(tiles[i][k].id == id);
        assert(displays(v.monitors, tiles, layout, id, i));
    }
}

proof fn lemma_elsewhere(v: StateView, layout: Layout, id: WindowId)
    requires
        v.wf(),
    ensures
        v.hides(v.monitors, layout).contains(id) <==> is_elsewhere(v, layout, id),
{
    lemma_hides(v, v.monitors, layout, id);
    if exists|i: int, k: int| parked(v, v.monitors, layout, id, i, k) {
        let (i, k) = choose|i: int, k: int| parked(v, v.monitors, layout, id, i, k);
        let d = v.monitors[i].device@;
        let j = lemma_known(layout, d);
        law_sliding_is_taking_part(v, d, id);
        assert(is_elsewhere_at(v, layout, id, i, j, k));
    }
    if is_elsewhere(v, layout, id) {
        let (i, j, k) = choose|i: int, j: int, k: int|
            is_elsewhere_at(v, layout, id, i, j, k);
        let d = v.monitors[i].device@;
        law_layouts_are_found_by_name(layout, d, j);
        law_sliding_is_taking_part(v, d, id);
        assert(parked(v, v.monitors, layout, id, i, k));
    }
}

proof fn lemma_fullscreen(v: StateView, layout: Layout, id: WindowId)
    ensures
        v.raises(v.monitors, layout).contains(id) <==> is_fullscreen(v, layout, id),
{
    lemma_raises(v, v.monitors, layout, id);
    if exists|i: int| covers(v.monitors, layout, id, i) {
        let i = choose|i: int| covers(v.monitors, layout, id, i);
        let j = lemma_known(layout, v.monitors[i].device@);
        assert(is_fullscreen_at(v, layout, id, i, j));
    }
    if is_fullscreen(v, layout, id) {
        let (i, j) = choose|i: int, j: int| is_fullscreen_at(v, layout, id, i, j);
        law_layouts_are_found_by_name(layout, v.monitors[i].device@, j);
        assert(covers(v.monitors, layout, id, i));
    }
}

/// A reflow sends a window to a rectangle exactly when the window has a
/// tile there that does not slide, the whole of the tile's own monitor
/// counting for the tile of a fullscreen window; or when it is a float
/// on view, whose rectangle that is.
pub proof fn law_reflow_sends_windows_to_their_places(
    v: StateView,
    order: Seq<WindowId>,
    tiles: Seq<Seq<TileRect>>,
    layout: Layout,
    id: WindowId,
    rect: FloatRect,
)
    requires
        v.wf(),
        !v.paused(),
        lists(order, v.floating.dom()),
        tiles.len() == v.monitors.len(),
    ensures
        v.reflow_effects(order, tiles, layout).contains(Effect::SetTarget { id, rect }) <==> {
            ||| exists|i: int, j: int, k: int| is_sent(v, tiles, layout, id, rect, i, j, k)
            ||| is_afloat(v, layout, id) && rect == v.floating[id].rect
        },
{
    let e = Effect::SetTarget { id, rect };
    lemma_reflow(v, order, tiles, layout, e);
    lemma_float_part(v, order, layout, id, e);
    law_floats_on_view_are_afloat(v, layout, id);
    lemma_retire(v.hides(v.monitors, layout), e);
    lemma_targets(v, v.monitors, tiles, layout, e);
    if exists|i: int, k: int| sends(v, v.monitors, tiles, layout, e, i, k) {
        let (i, k) = choose|i: int, k: int| sends(v, v.monitors, tiles, layout, e, i, k);
        let d = v.monitors[i].device@;
        let j = lemma_known(layout, d);
        law_sliding_is_taking_part(v, d, id);
        assert(is_sent(v, tiles, layout, id, rect, i, j, k));
    }
    if exists|i: int, j: int, k: int| is_sent(v, tiles, layout, id, rect, i, j, k) {
        let (i, j, k) = choose|i: int, j: int, k: int|
            is_sent(v, tiles, layout, id, rect, i, j, k);
        let d = v.monitors[i].device@;
        law_layouts_are_found_by_name(layout, d, j);
        law_sliding_is_taking_part(v, d, id);
        assert(sends(v, v.monitors, tiles, layout, e, i, k));
    }
}

/// A reflow sends every tile that does not slide: to the tile itself, or
/// to the whole of its own monitor, edge by edge, if its window is the
/// fullscreen one of the workspace shown there.
pub proof fn law_fullscreen_covers_its_own_monitor(
    v: StateView,
    order: Seq<WindowId>,
    tiles: Seq<Seq<TileRect>>,
    layout: Layout,
    i: int,
    j: int,
    k: int,
    rect: FloatRect,
)
    requires
        v.wf(),
        !v.paused(),
        lists(order, v.floating.dom()),
        tiles.len() == v.monitors.len(),
        0 <= i < v.monitors.len(),
        is_known(layout, v.monitors[i].device@, j),
        0 <= k < tiles[i].len(),
        !slides_along(v, v.monitors[i].device@, tiles[i][k].id),
        ({
            let m = layout.monitors@[j];
            let r = tiles[i][k];
            let full = v.monitors[i].full;
            let unit = SUBPIXEL;
            if m.workspaces@[m.active_workspace_idx as int].fullscreen_id == Some(r.id) {
                &&& rect.x == full.left * unit
                &&& rect.y == full.top * unit
                &&& rect.x + rect.w == full.right * unit
                &&& rect.y + rect.h == full.bottom * unit
            } else {
                &&& rect.x == r.x * unit
                &&& rect.y == r.y * unit
                &&& rect.w == r.w * unit
                &&& rect.h == r.h * unit
            }
        }),
    ensures
        v.reflow_effects(order, tiles, layout).contains(
            Effect::SetTarget { id: tiles[i][k].id, rect },
        ),
{
    let id = tiles[i][k].id;
    law_reflow_sends_windows_to_their_places(v, order, tiles, layout, id, rect);
    assert(is_tile(v, tiles, layout, id, i, j, k));
    assert(is_sent(v, tiles, layout, id, rect, i, j, k));
}

/// A reflow shows exactly the windows with a tile on a monitor that the
/// layout knows, and the floats on view.
pub proof fn law_reflow_shows_what_is_on_view(
    v: StateView,
    order: Seq<WindowId>,
    tiles: Seq<Seq<TileRect>>,
    layout: Layout,
    id: WindowId,
)
    requires
        !v.paused(),
        lists(order, v.floating.dom()),
        tiles.len() == v.monitors.len(),
    ensures
        v.reflow_effects(order, tiles, layout).contains(Effect::Show(id)) <==> is_shown(
            v,
            tiles,
            layout,
            id,
        ) || is_afloat(v, layout, id),
{
    let e = Effect::Show(id);
    lemma_reflow(v, order, tiles, layout, e);
    lemma_float_part(v, order, layout, id, e);
    law_floats_on_view_are_afloat(v, layout, id);
    lemma_retire(v.hides(v.monitors, layout), e);
    lemma_mapped(v.shows(v.monitors, tiles, layout), id);
    lemma_shown(v, tiles, layout, id);
    lemma_targets(v, v.monitors, tiles, layout, e);
}

/// A reflow hides exactly the windows on workspaces that are not shown,
/// unless they slide, and the floats that are not on view. Whatever it
/// hides it stops animating, and nothing else.
pub proof fn law_reflow_hides_what_is_elsewhere(
    v: StateView,
    order: Seq<WindowId>,
    tiles: Seq<Seq<TileRect>>,
    layout: Layout,
    id: WindowId,
)
    requires
        v.wf(),
        !v.paused(),
        lists(order, v.floating.dom()),
        tiles.len() == v.monitors.len(),
    ensures
        v.reflow_effects(order, tiles, layout).contains(Effect::Hide(id)) <==> is_elsewhere(
            v,
            layout,
            id,
        ) || (v.floating.contains_key(id) && !is_afloat(v, layout, id)),
        v.reflow_effects(order, tiles, layout).contains(Effect::RemoveAnimation(id))
            <==> is_elsewhere(v, layout, id) || (v.floating.contains_key(id) && !is_afloat(
            v,
            layout,
            id,
        )),
{
    let a = Effect::Hide(id);
    let b = Effect::RemoveAnimation(id);
    let hides = v.hides(v.monitors, layout);
    lemma_reflow(v, order, tiles, layout, a);
    lemma_reflow(v, order, tiles, layout, b);
    lemma_float_part(v, order, layout, id, a);
    lemma_float_part(v, order, layout, id, b);
    law_floats_on_view_are_afloat(v, layout, id);
    lemma_retire(hides, a);
    lemma_retire(hides, b);
    if hides.contains(id) {
        assert(hides[hides.index_of(id)] == id);
    }
    lemma_elsewhere(v, layout, id);
    lemma_targets(v, v.monitors, tiles, layout, a);
    lemma_targets(v, v.monitors, tiles, layout, b);
}

/// A reflow raises exactly the fullscreen windows of the workspaces
/// shown and the floats on view. It puts the bars back on top exactly
/// when there is such a fullscreen window.
pub proof fn law_reflow_raises_fullscreen_and_floats(
    v: StateView,
    order: Seq<WindowId>,
    tiles: Seq<Seq<TileRect>>,
    layout: Layout,
    id: WindowId,
)
    requires
        !v.paused(),
        lists(order, v.floating.dom()),
        tiles.len() == v.monitors.len(),
    ensures
        v.reflow_effects(order, tiles, layout).contains(Effect::Raise(id)) <==> is_fullscreen(
            v,
            layout,
            id,
        ) || is_afloat(v, layout, id),
        v.reflow_effects(order, tiles, layout).contains(Effect::RaiseBars) <==> exists|
            f: WindowId,
        | is_fullscreen(v, layout, f),
{
    let e = Effect::Raise(id);
    let bars = Effect::RaiseBars;
    let raises = v.raises(v.monitors, layout);
    lemma_reflow(v, order, tiles, layout, e);
    lemma_float_part(v, order, layout, id, e);
    law_floats_on_view_are_afloat(v, layout, id);
    lemma_retire(v.hides(v.monitors, layout), e);
    lemma_mapped(raises, id);
    lemma_fullscreen(v, layout, id);
    lemma_targets(v, v.monitors, tiles, layout, e);
    lemma_reflow(v, order, tiles, layout, bars);
    lemma_float_effects(v, order, layout, bars);
    lemma_retire(v.hides(v.monitors, layout), bars);
    lemma_targets(v, v.monitors, tiles, layout, bars);
    if raises.len() > 0 {
        assert(tail(v, layout)[0] == bars);
        lemma_fullscreen(v, layout, raises[0]);
        assert(raises.contains(raises[0]));
    }
    if exists|f: WindowId| is_fullscreen(v, layout, f) {
        let f = choose|f: WindowId| is_fullscreen(v, layout, f);
        lemma_fullscreen(v, layout, f);
        assert(raises.len() > 0);
    }
}

/// What a reflow shows as a tile it does not hide after that, every
/// fullscreen window is raised after every float, the bars go on top
/// after all of them, and at the very end the first frame is drawn and
/// the ring placed.
pub proof fn law_reflow_runs_in_order(
    v: StateView,
    order: Seq<WindowId>,
    tiles: Seq<Seq<TileRect>>,
    layout: Layout,
    id: WindowId,
    a: int,
    b: int,
)
    requires
        v.wf(),
        !v.paused(),
        lists(order, v.floating.dom()),
        tiles.len() == v.monitors.len(),
    ensures
        ({
            let effects = v.reflow_effects(order, tiles, layout);
            &&& is_shown(v, tiles, layout, id) ==> exists|s: int|
                0 <= s < effects.len() && (#[trigger] effects[s]) == Effect::Show(id) && forall|
                    h: int,
                |
                    s < h < effects.len() ==> (#[trigger] effects[h]) != Effect::Hide(id)
            &&& is_fullscreen(v, layout, id) ==> exists|r: int|
                0 <= r < effects.len() && (#[trigger] effects[r]) == Effect::Raise(id) && forall|
                    f: int,
                |
                    r < f < effects.len() && (#[trigger] effects[f]) is Raise ==> is_fullscreen(
                        v,
                        layout,
                        effects[f]->Raise_0,
                    )
            &&& 0 <= a < effects.len() && 0 <= b < effects.len() && effects[a] == Effect::RaiseBars
                && (effects[b] is Raise || effects[b] is Show || effects[b] is SetTarget) ==> b < a
            &&& effects.len() >= 2
            &&& effects[effects.len() - 2] == Effect::TickAnimations
            &&& effects[effects.len() - 1] == Effect::UpdateFocusBorder
        }),
{
    let effects = v.reflow_effects(order, tiles, layout);
    let e1 = v.float_effects(order, layout);
    let e2 = retire_all(v.hides(v.monitors, layout));
    let shows = v.shows(v.monitors, tiles, layout);
    let e3 = show_all(shows);
    let e4 = v.targets(v.monitors, tiles, layout);
    let raises = v.raises(v.monitors, layout);
    let e5 = raise_all(raises);
    let e6 = tail(v, layout);
    lemma_reflow(v, order, tiles, layout, Effect::RaiseBars);
    let n2 = e1.len() + e2.len();
    let n3 = n2 + e3.len();
    let n4 = n3 + e4.len();
    let n5 = n4 + e5.len();
    assert(effects =~= e1 + e2 + e3 + e4 + e5 + e6);
    lemma_shown(v, tiles, layout, id);
    lemma_fullscreen(v, layout, id);
    assert forall|x: int| n3 <= x < n4 implies (#[trigger] effects[x]) is SetTarget by {
        assert(effects[x] == e4[x - n3]);
        assert(e4.contains(effects[x]));
        lemma_targets(v, v.monitors, tiles, layout, effects[x]);
    }
    assert forall|x: int| n2 <= x < n3 implies (#[trigger] effects[x]) is Show by {
        assert(effects[x] == e3[x - n2]);
    }
    assert forall|x: int| n4 <= x < n5 implies (#[trigger] effects[x]) is Raise && is_fullscreen(
        v,
        layout,
        effects[x]->Raise_0,
    ) by {
        assert(effects[x] == e5[x - n4]);
        assert(raises.contains(raises[x - n4]));
        lemma_fullscreen(v, layout, raises[x - n4]);
    }
    assert forall|x: int| n5 <= x < effects.len() implies (#[trigger] effects[x])
        == Effect::RaiseBars || effects[x] == Effect::TickAnimations || effects[x]
        == Effect::UpdateFocusBorder by {
        assert(effects[x] == e6[x - n5]);
    }
    if is_shown(v, tiles, layout, id) {
        let s = n2 + shows.index_of(id);
        assert(effects[s] == e3[s - n2]);
        assert(effects[s] == Effect::Show(id));
        assert forall|h: int| s < h < effects.len() implies (#[trigger] effects[h]) != Effect::Hide(
            id,
        ) by {
            assert(n2 <= h);
        }
    }
    if is_fullscreen(v, layout, id) {
        let r = n4 + raises.index_of(id);
        assert(effects[r] == e5[r - n4]);
        assert(effects[r] == Effect::Raise(id));
    }
    assert forall|x: int| 0 <= x < n5 implies (#[trigger] effects[x]) != Effect::RaiseBars by {
        if x < e1.len() {
            assert(effects[x] == e1[x]);
            assert(e1.contains(effects[x]));
            lemma_float_effects(v, order, layout, effects[x]);
        } else if x < n2 {
            assert(effects[x] == e2[x - e1.len()]);
            assert(e2.contains(effects[x]));
            lemma_retire(v.hides(v.monitors, layout), effects[x]);
        }
    }
    assert(effects[effects.len() - 2] == e6[e6.len() - 2]);
    assert(effects[effects.len() - 1] == e6[e6.len() - 1]);
}

/// What a reflow remembers: a window is registered as hidden by us
/// exactly when it has no tile on view and either is on a workspace not
/// shown, or is a float not on view, or, being neither, was registered
/// before. Nothing else of the state changes.
pub proof fn law_reflow_remembers_what_it_hid(
    v: StateView,
    tiles: Seq<Seq<TileRect>>,
    layout: Layout,
    id: WindowId,
)
    requires
        v.wf(),
        !v.paused(),
        tiles.len() == v.monitors.len(),
    ensures
        ({
            let w = v.reflowed(tiles, layout);
            &&& w.hidden_by_us.contains(id) <==> {
                &&& !is_shown(v, tiles, layout, id)
                &&& {
                    ||| is_elsewhere(v, layout, id)
                    ||| v.floating.contains_key(id) && !is_afloat(v, layout, id)
                    ||| !v.floating.contains_key(id) && v.hidden_by_us.contains(id)
                }
            }
            &&& StateView { hidden_by_us: v.hidden_by_us, ..w } == v
        }),
{
    lemma_shown(v, tiles, layout, id);
    lemma_elsewhere(v, layout, id);
    law_floats_on_view_are_afloat(v, layout, id);
    assert((StateView { hidden_by_us: v.hidden_by_us, ..v.reflowed(tiles, layout) }) =~= v);
}

/// Management rests while the user holds a window, and while a screen
/// transition runs, and at no other time.
pub proof fn law_when_management_rests(v: StateView)
    ensures
        v.paused() <==> v.interacting_window is Some || v.suspended,
{
}

/// A tile on a monitor that the layout does not know is neither shown
/// nor sent anywhere on its account.
pub proof fn law_unknown_monitors_are_passed_over(
    v: StateView,
    order: Seq<WindowId>,
    tiles: Seq<Seq<TileRect>>,
    layout: Layout,
    id: WindowId,
    rect: FloatRect,
)
    requires
        v.wf(),
        !v.paused(),
        lists(order, v.floating.dom()),
        tiles.len() == v.monitors.len(),
        !v.floating.contains_key(id),
        forall|i: int|
            #![trigger v.monitors[i]]
            0 <= i < v.monitors.len() && tiled_in(tiles[i], id) ==> is_unknown(
                layout,
                v.monitors[i].device@,
            ),
    ensures
        !v.reflow_effects(order, tiles, layout).contains(Effect::Show(id)),
        !v.reflow_effects(order, tiles, layout).contains(Effect::SetTarget { id, rect }),
{
    law_reflow_shows_what_is_on_view(v, order, tiles, layout, id);
    law_reflow_sends_windows_to_their_places(v, order, tiles, layout, id, rect);
    assert forall|i: int, j: int, k: int| !is_tile(v, tiles, layout, id, i, j, k) by {
        if is_tile(v, tiles, layout, id, i, j, k) {
            assert(tiles[i][k].id == id);
            assert(tiled_in(tiles[i], id));
            assert(layout.monitors@[j].device@ == v.monitors[i].device@);
        }
    }
}

} // verus!

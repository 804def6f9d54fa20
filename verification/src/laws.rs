//! What holds of the window manager as a whole. The modules below say it
//! of one side of the program each.

pub mod actions;
pub mod displays;
pub mod drops;
pub mod floats;
pub mod focusing;
pub mod lookup;
pub mod program;
pub mod slides;
pub mod tiling;
pub mod windows;

use crate::dispatch::Action;
use crate::display::{
    add_all, adopt_monitors, display_effects, gone_effects, is_gone, present, refuge,
    rehome_effects,
};
use crate::drag::{
    columns_of, hits, in_column, is_first, is_hit, is_last, last_left, middle_below, past_left,
    past_right, place_at, slot_of, DropSight,
};
use crate::effect::{
    hide_all, lemma_retire_hides, place_all, raise_all, retire_all, show_all, DropPlace, Effect,
    FocusCause,
};
use crate::events::{Seen, WinEvent, WindowRule};
use crate::focus::{exit_effects, RingSight};
use crate::geometry::{
    called, monitor_at, tile_ids, Bounds, Monitor, Rect, TileRect, WindowId, SUBPIXEL,
};
use crate::layout::{
    lemma_holds, workspace_ids, workspace_with, Layout, MonitorLayout, Workspace,
};
use crate::lifecycle::Found;
use crate::placement::{bare, decorated, decorations, law_decorations_come_back};
use crate::reflow::{inactive_ids, outside, tile_targets};
use crate::search::{first_where, lemma_first_is, lemma_first_none, lemma_first_where};
use crate::slide::{
    all_tiles, beyond, carried, carried_part, displacement, displacements, frame_at, fresh, ids_on,
    merged, part_ids, rects_of, rounded, shifted, stride_of, taken_along, PartView, SlideView,
    CAMERA_UNIT,
};
use crate::state::{lists, slide_on, Settings, StateView};
use crate::transition::{inactive_parts, slide_effects, snap_effects, snap_hidden};
use vstd::prelude::*;

verus! {

/// `a` or `b` has what `a + b` has.
proof fn lemma_either<T>(a: Seq<T>, b: Seq<T>, x: T)
    ensures
        (a + b).contains(x) <==> a.contains(x) || b.contains(x),
{
    if a.contains(x) {
        let i = a.index_of(x);
        assert((a + b)[i] == x);
    }
    if b.contains(x) {
        let i = b.index_of(x);
        assert((a + b)[a.len() + i] == x);
    }
    if (a + b).contains(x) {
        let i = (a + b).index_of(x);
        if i < a.len() {
            assert(a[i] == x);
        } else {
            assert(b[i - a.len()] == x);
        }
    }
}

proof fn lemma_tile_targets_hide_nothing(
    tiles: Seq<TileRect>,
    fullscreen: Option<WindowId>,
    full: Rect,
    sliding: Seq<WindowId>,
    id: WindowId,
)
    ensures
        !tile_targets(tiles, fullscreen, full, sliding).contains(Effect::Hide(id)),
    decreases tiles.len(),
{
    if tiles.len() > 0 {
        lemma_tile_targets_hide_nothing(tiles.drop_last(), fullscreen, full, sliding, id);
        let a = tile_targets(tiles.drop_last(), fullscreen, full, sliding);
        let all = tile_targets(tiles, fullscreen, full, sliding);
        if all.contains(Effect::Hide(id)) {
            let i = all.index_of(Effect::Hide(id));
            if i < a.len() {
                assert(a[i] == Effect::Hide(id));
            }
        }
    }
}

proof fn lemma_targets_hide_nothing(
    v: StateView,
    monitors: Seq<Monitor>,
    tiles: Seq<Seq<TileRect>>,
    layout: Layout,
    id: WindowId,
)
    ensures
        !v.targets(monitors, tiles, layout).contains(Effect::Hide(id)),
    decreases monitors.len(),
{
    if monitors.len() > 0 {
        lemma_targets_hide_nothing(v, monitors.drop_last(), tiles.drop_last(), layout, id);
        let sofar = v.targets(monitors.drop_last(), tiles.drop_last(), layout);
        let mon = monitors.last();
        if let Some(ml) = layout.at(mon.device@) {
            let more = tile_targets(
                tiles.last(),
                ml.active().fullscreen_id,
                mon.full,
                v.sliding(mon.device@),
            );
            lemma_tile_targets_hide_nothing(
                tiles.last(),
                ml.active().fullscreen_id,
                mon.full,
                v.sliding(mon.device@),
                id,
            );
            lemma_either(sofar, more, Effect::Hide(id));
        }
    }
}

proof fn lemma_float_hides(v: StateView, order: Seq<WindowId>, layout: Layout, id: WindowId)
    requires
        v.float_effects(order, layout).contains(Effect::Hide(id)),
    ensures
        order.contains(id),
        !v.float_on_view(id, layout),
    decreases order.len(),
{
    if order.len() > 0 {
        let sofar = v.float_effects(order.drop_last(), layout);
        let x = order.last();
        let more = if v.float_on_view(x, layout) {
            seq![
                Effect::Show(x),
                Effect::Raise(x),
                Effect::SetTarget { id: x, rect: v.floating[x].rect },
            ]
        } else {
            seq![Effect::Hide(x), Effect::RemoveAnimation(x)]
        };
        assert(v.float_effects(order, layout) =~= sofar + more);
        lemma_either(sofar, more, Effect::Hide(id));
        if sofar.contains(Effect::Hide(id)) {
            lemma_float_hides(v, order.drop_last(), layout, id);
            let i = order.drop_last().index_of(id);
            assert(order[i] == id);
        } else {
            let i = more.index_of(Effect::Hide(id));
            assert(i == 0 || i == 1 || i == 2);
            assert(more[i] == Effect::Hide(id));
            assert(x == id);
            assert(order[order.len() - 1] == id);
        }
    }
}

proof fn lemma_reflow_parts(
    v: StateView,
    order: Seq<WindowId>,
    tiles: Seq<Seq<TileRect>>,
    layout: Layout,
    e: Effect,
)
    requires
        !v.paused(),
    ensures
        v.reflow_effects(order, tiles, layout).contains(e) <==> {
            ||| v.float_effects(order, layout).contains(e)
            ||| retire_all(v.hides(v.monitors, layout)).contains(e)
            ||| show_all(v.shows(v.monitors, tiles, layout)).contains(e)
            ||| v.targets(v.monitors, tiles, layout).contains(e)
            ||| raise_all(v.raises(v.monitors, layout)).contains(e)
            ||| v.raises(v.monitors, layout).len() > 0 && e == Effect::RaiseBars
            ||| e == Effect::TickAnimations
            ||| e == Effect::UpdateFocusBorder
        },
{
    let raises = v.raises(v.monitors, layout);
    let e1 = v.float_effects(order, layout);
    let e2 = retire_all(v.hides(v.monitors, layout));
    let e3 = show_all(v.shows(v.monitors, tiles, layout));
    let e4 = v.targets(v.monitors, tiles, layout);
    let e5 = raise_all(raises);
    let e6 = if raises.len() > 0 {
        seq![Effect::RaiseBars]
    } else {
        Seq::empty()
    };
    let e7 = seq![Effect::TickAnimations, Effect::UpdateFocusBorder];
    lemma_either(e1 + e2 + e3 + e4 + e5 + e6, e7, e);
    lemma_either(e1 + e2 + e3 + e4 + e5, e6, e);
    lemma_either(e1 + e2 + e3 + e4, e5, e);
    lemma_either(e1 + e2 + e3, e4, e);
    lemma_either(e1 + e2, e3, e);
    lemma_either(e1, e2, e);
    assert(e7[0] == Effect::TickAnimations);
    assert(e7[1] == Effect::UpdateFocusBorder);
    if raises.len() > 0 {
        assert(e6[0] == Effect::RaiseBars);
    }
}

proof fn lemma_reflow_hides(
    v: StateView,
    order: Seq<WindowId>,
    tiles: Seq<Seq<TileRect>>,
    layout: Layout,
    id: WindowId,
)
    requires
        v.reflow_effects(order, tiles, layout).contains(Effect::Hide(id)),
    ensures
        !v.paused(),
        v.hides(v.monitors, layout).contains(id) || (order.contains(id) && !v.float_on_view(
            id,
            layout,
        )),
{
    lemma_reflow_parts(v, order, tiles, layout, Effect::Hide(id));
    lemma_targets_hide_nothing(v, v.monitors, tiles, layout, id);
    lemma_retire_hides(v.hides(v.monitors, layout), id);
    if v.float_effects(order, layout).contains(Effect::Hide(id)) {
        lemma_float_hides(v, order, layout, id);
    }
}

proof fn lemma_inactive_has(
    workspaces: Seq<Workspace>,
    active: int,
    sliding: Seq<WindowId>,
    k: int,
    id: WindowId,
)
    requires
        0 <= k < workspaces.len(),
        k != active,
        workspaces[k].ids().contains(id),
        !sliding.contains(id),
    ensures
        inactive_ids(workspaces, active, sliding).contains(id),
    decreases workspaces.len(),
{
    broadcast use vstd::seq_lib::group_filter_ensures;

    let t = workspaces.drop_last();
    let sofar = inactive_ids(t, active, sliding);
    let more = workspaces.last().ids().filter(outside(sliding));
    lemma_either(sofar, more, id);
    if k < t.len() {
        assert(t[k] == workspaces[k]);
        lemma_inactive_has(t, active, sliding, k, id);
    } else {
        let ids = workspaces.last().ids();
        let i = ids.index_of(id);
        assert(outside(sliding)(ids[i]));
        assert(more.contains(id));
    }
}

proof fn lemma_hides_has(v: StateView, monitors: Seq<Monitor>, layout: Layout, i: int, id: WindowId)
    requires
        0 <= i < monitors.len(),
        layout.at(monitors[i].device@) matches Some(ml) && inactive_ids(
            ml.workspaces@,
            ml.active_workspace_idx as int,
            v.sliding(monitors[i].device@),
        ).contains(id),
    ensures
        v.hides(monitors, layout).contains(id),
    decreases monitors.len(),
{
    let t = monitors.drop_last();
    if i < t.len() {
        assert(t[i] == monitors[i]);
        lemma_hides_has(v, t, layout, i, id);
    }
    let device = monitors.last().device@;
    if let Some(ml) = layout.at(device) {
        lemma_either(
            v.hides(t, layout),
            inactive_ids(ml.workspaces@, ml.active_workspace_idx as int, v.sliding(device)),
            id,
        );
    }
}

proof fn lemma_shows_has(
    v: StateView,
    monitors: Seq<Monitor>,
    tiles: Seq<Seq<TileRect>>,
    layout: Layout,
    i: int,
    id: WindowId,
)
    requires
        0 <= i < monitors.len(),
        tiles.len() == monitors.len(),
        layout.at(monitors[i].device@) is Some,
        tile_ids(tiles[i]).contains(id),
    ensures
        v.shows(monitors, tiles, layout).contains(id),
    decreases monitors.len(),
{
    let t = monitors.drop_last();
    if i < t.len() {
        assert(t[i] == monitors[i]);
        assert(tiles.drop_last()[i] == tiles[i]);
        lemma_shows_has(v, t, tiles.drop_last(), layout, i, id);
    }
    lemma_either(v.shows(t, tiles.drop_last(), layout), tile_ids(tiles.last()), id);
}

/// A reflow hides every window of a known monitor's other workspaces,
/// unless the window takes part in a slide there.
pub proof fn law_other_workspaces_are_hidden(
    v: StateView,
    order: Seq<WindowId>,
    tiles: Seq<Seq<TileRect>>,
    layout: Layout,
    i: int,
    k: int,
    id: WindowId,
)
    requires
        !v.paused(),
        0 <= i < v.monitors.len(),
        layout.at(v.monitors[i].device@) matches Some(ml) && 0 <= k < ml.workspaces@.len() && k
            != ml.active_workspace_idx && ml.workspaces@[k].holds(id),
        !v.sliding(v.monitors[i].device@).contains(id),
    ensures
        v.reflow_effects(order, tiles, layout).contains(Effect::Hide(id)),
{
    let device = v.monitors[i].device@;
    let ml = layout.at(device)->0;
    lemma_holds(ml.workspaces@[k], id);
    lemma_inactive_has(
        ml.workspaces@,
        ml.active_workspace_idx as int,
        v.sliding(device),
        k,
        id,
    );
    lemma_hides_has(v, v.monitors, layout, i, id);
    lemma_retire_hides(v.hides(v.monitors, layout), id);
    lemma_reflow_parts(v, order, tiles, layout, Effect::Hide(id));
}

/// A reflow shows every tile of a known monitor, and the window is not
/// registered as hidden by us any more.
pub proof fn law_tiles_are_shown(
    v: StateView,
    order: Seq<WindowId>,
    tiles: Seq<Seq<TileRect>>,
    layout: Layout,
    i: int,
    id: WindowId,
)
    requires
        !v.paused(),
        0 <= i < v.monitors.len(),
        tiles.len() == v.monitors.len(),
        layout.at(v.monitors[i].device@) is Some,
        tile_ids(tiles[i]).contains(id),
    ensures
        v.reflow_effects(order, tiles, layout).contains(Effect::Show(id)),
        !v.reflowed(tiles, layout).hidden_by_us.contains(id),
{
    lemma_shows_has(v, v.monitors, tiles, layout, i, id);
    let shows = v.shows(v.monitors, tiles, layout);
    let k = shows.index_of(id);
    assert(show_all(shows)[k] == Effect::Show(id));
    lemma_reflow_parts(v, order, tiles, layout, Effect::Show(id));
}

/// A window that disappears because we hid it stays managed: nothing
/// changes, and nothing is done.
pub proof fn law_own_hides_are_ignored(v: StateView, id: WindowId, seen: Seen)
    requires
        v.hidden_by_us.contains(id),
    ensures
        v.on_event(WinEvent::Hidden(id), seen) == (v, Seq::<Effect>::empty()),
        v.on_event(WinEvent::Cloaked(id), seen) == (v, Seq::<Effect>::empty()),
        v.on_event(WinEvent::MinimizeStarted(id), seen) == (v, Seq::<Effect>::empty()),
{
}

/// Whatever a reflow hides, and does not show as a tile after that, is
/// registered as hidden by us: its hiding will not unmanage it.
pub proof fn law_reflow_unmanages_nothing(
    v: StateView,
    order: Seq<WindowId>,
    tiles: Seq<Seq<TileRect>>,
    layout: Layout,
    id: WindowId,
    seen: Seen,
)
    requires
        lists(order, v.floating.dom()),
        v.reflow_effects(order, tiles, layout).contains(Effect::Hide(id)),
        !v.shows(v.monitors, tiles, layout).contains(id),
    ensures
        ({
            let w = v.reflowed(tiles, layout);
            w.on_event(WinEvent::Hidden(id), seen) == (w, Seq::<Effect>::empty())
        }),
{
    lemma_reflow_hides(v, order, tiles, layout, id);
    if order.contains(id) {
        assert(order.to_set().contains(id));
        assert(v.floating.contains_key(id));
    }
}

/// Whatever a reflow leaves on view is not registered as hidden by us:
/// when it disappears, that is noticed.
pub proof fn law_reflow_notices_hides_of_shown_windows(
    v: StateView,
    tiles: Seq<Seq<TileRect>>,
    layout: Layout,
    id: WindowId,
)
    requires
        !v.paused(),
        v.shows(v.monitors, tiles, layout).contains(id) || (v.float_on_view(id, layout)
            && !v.hides(v.monitors, layout).contains(id)),
    ensures
        !v.reflowed(tiles, layout).hidden_by_us.contains(id),
{
}

/// While management is paused, a reflow changes nothing and does
/// nothing, no slide starts, and the ring does not show.
pub proof fn law_paused_management_rests(
    v: StateView,
    order: Seq<WindowId>,
    tiles: Seq<Seq<TileRect>>,
    layout: Layout,
    device: Seq<char>,
    cursor: Option<String>,
    sight: RingSight,
)
    requires
        v.paused(),
    ensures
        v.reflowed(tiles, layout) == v,
        v.reflow_effects(order, tiles, layout) == Seq::<Effect>::empty(),
        !v.can_slide(device, layout),
        !(v.ring(cursor, layout, sight) is Around),
{
}

/// Whatever the start of a slide hides is registered as hidden by us.
pub proof fn law_switch_unmanages_nothing(
    v: StateView,
    device: String,
    prev: usize,
    idx: usize,
    finals: Seq<PartView>,
    ml: MonitorLayout,
    alive: Set<WindowId>,
    id: WindowId,
)
    requires
        slide_effects(device, prev, idx, finals, ml).contains(Effect::Hide(id)),
    ensures
        v.slide_started(device@, idx, finals, ml, alive).hidden_by_us.contains(id),
{
    let hide = Effect::Hide(id);
    let others = inactive_ids(ml.workspaces@, idx as int, part_ids(finals));
    let e1 = seq![Effect::AimCamera { device, from: prev, to: idx }, Effect::PlaceSlide(device)];
    let e2 = show_all(part_ids(finals));
    let e3 = retire_all(others);
    let e4 = seq![Effect::RaiseBars];
    lemma_either(e1 + e2 + e3, e4, hide);
    lemma_either(e1 + e2, e3, hide);
    lemma_either(e1, e2, hide);
    assert(!e1.contains(hide));
    assert(!e2.contains(hide));
    assert(!e4.contains(hide));
    lemma_retire_hides(others, id);
}

/// Whatever the end of a slide hides is registered as hidden by us.
pub proof fn law_settling_unmanages_nothing(
    v: StateView,
    i: int,
    camera: i64,
    done: bool,
    layout: Layout,
    id: WindowId,
)
    requires
        0 <= i < v.slides.len(),
        v.slide_ticked(i, camera, done, layout).1.contains(Effect::Hide(id)),
    ensures
        v.slide_ticked(i, camera, done, layout).0.hidden_by_us.contains(id),
{
    let hide = Effect::Hide(id);
    let s = v.slides[i];
    let places = place_all(frame_at(s.finals, camera, s.stride));
    let frame = places.push(Effect::RaiseBars);
    assert(!frame.contains(hide)) by {
        assert forall|k: int| 0 <= k < frame.len() implies frame[k] != hide by {
            if k < places.len() {
                assert(frame[k] == places[k]);
            }
        }
    }
    let parked = inactive_parts(s.finals, layout.active_on(s.device));
    lemma_either(frame, hide_all(parked), hide);
    let all = (frame + hide_all(parked)).push(Effect::Reflow);
    if all.contains(hide) {
        let k = all.index_of(hide);
        assert(k < (frame + hide_all(parked)).len());
        assert((frame + hide_all(parked))[k] == hide);
        let j = hide_all(parked).index_of(hide);
        assert(parked[j] == id);
        assert(parked.to_set().contains(id));
    }
}

proof fn lemma_snap_hides(slides: Seq<SlideView>, cameras: Seq<i64>, layout: Layout, id: WindowId)
    requires
        snap_effects(slides, cameras, layout).contains(Effect::Hide(id)),
    ensures
        snap_hidden(slides, layout).contains(id),
    decreases slides.len(),
{
    if slides.len() > 0 {
        let hide = Effect::Hide(id);
        let s = slides.last();
        let a = snap_effects(slides.drop_last(), cameras.drop_last(), layout);
        let b = place_all(frame_at(s.finals, cameras.last(), s.stride));
        let ids = inactive_parts(s.finals, layout.active_on(s.device));
        let c = hide_all(ids);
        lemma_either(a + b, c, hide);
        lemma_either(a, b, hide);
        assert(!b.contains(hide));
        lemma_either(snap_hidden(slides.drop_last(), layout), ids, id);
        if a.contains(hide) {
            lemma_snap_hides(slides.drop_last(), cameras.drop_last(), layout, id);
        } else {
            let j = c.index_of(hide);
            assert(ids[j] == id);
        }
    }
}

/// Whatever a suspension hides is registered as hidden by us.
pub proof fn law_suspension_unmanages_nothing(
    v: StateView,
    cameras: Seq<i64>,
    layout: Layout,
    id: WindowId,
)
    requires
        v.suspension(cameras, layout).1.contains(Effect::Hide(id)),
    ensures
        v.suspension(cameras, layout).0.hidden_by_us.contains(id),
{
    let hide = Effect::Hide(id);
    if !v.suspended {
        let a = seq![Effect::FinishAnimations];
        let b = snap_effects(v.slides, cameras, layout);
        let c = if v.has_focus_border {
            seq![Effect::HideRing]
        } else {
            Seq::empty()
        };
        lemma_either(a + b, c, hide);
        lemma_either(a, b, hide);
        assert(!a.contains(hide));
        assert(!c.contains(hide));
        lemma_snap_hides(v.slides, cameras, layout, id);
        assert(snap_hidden(v.slides, layout).to_set().contains(id));
    }
}

/// Suspending a second time changes nothing; resuming takes the
/// suspension back, and no slide is left behind.
pub proof fn law_suspension_is_undone(
    v: StateView,
    cameras: Seq<i64>,
    layout: Layout,
    cameras2: Seq<i64>,
    layout2: Layout,
)
    requires
        !v.suspended,
    ensures
        ({
            let w = v.suspension(cameras, layout).0;
            &&& w.paused()
            &&& w.suspension(cameras2, layout2) == (w, Seq::<Effect>::empty())
            &&& w.slides.len() == 0
            &&& StateView {
                suspended: false,
                slides: v.slides,
                hidden_by_us: v.hidden_by_us,
                ..w
            } == v
            &&& v.hidden_by_us.subset_of(w.hidden_by_us)
        }),
{
}

/// While management is suspended an action moves nothing: all that can
/// come of it is quitting or covering the screen anew.
pub proof fn law_suspended_actions(
    v: StateView,
    action: Action,
    cursor: Option<String>,
    layout: Layout,
)
    requires
        v.suspended,
    ensures
        v.can_act(action, cursor, layout),
        v.on_action(action, cursor, layout) == (
            v,
            match action {
                Action::Quit => seq![Effect::Quit],
                Action::DoScreenTransition => seq![Effect::BeginTransition],
                _ => Seq::<Effect>::empty(),
            },
        ),
{
}

/// While management is not suspended, quitting and launching programs
/// work wherever there is a monitor to act on, whatever is focused and
/// whether or not the layout knows the monitor.
pub proof fn law_program_actions_always_work(
    v: StateView,
    cmd: String,
    cursor: Option<String>,
    layout: Layout,
)
    requires
        !v.suspended,
        v.place_of_action(cursor, layout) is Some,
    ensures
        v.can_act(Action::Quit, cursor, layout),
        v.on_action(Action::Quit, cursor, layout) == (v, seq![Effect::Quit]),
        v.can_act(Action::Spawn(cmd), cursor, layout),
        v.on_action(Action::Spawn(cmd), cursor, layout) == (v, seq![Effect::Spawn(cmd)]),
{
}

/// A settled slide no longer owns its monitor: the reflow that follows
/// manages every window on it.
pub proof fn law_settled_slide_lets_go(v: StateView, i: int, camera: i64, layout: Layout)
    requires
        v.wf(),
        0 <= i < v.slides.len(),
    ensures
        v.slide_ticked(i, camera, true, layout).0.sliding(v.slides[i].device) == Seq::<
            WindowId,
        >::empty(),
{
    let d = v.slides[i].device;
    let rest = v.slides.remove(i);
    assert forall|k: int| 0 <= k < rest.len() implies !slide_on(d)(#[trigger] rest[k]) by {
        if k < i {
            assert(rest[k] == v.slides[k]);
        } else {
            assert(rest[k] == v.slides[k + 1]);
        }
    }
    lemma_first_none(rest, slide_on(d));
}

/// A managed window in sight that the pointer comes to rest on is
/// focused, tile or float alike: by the layout, if it holds the window,
/// and by the system.
pub proof fn law_hovered_windows_are_focused(
    v: StateView,
    id: WindowId,
    layout: Layout,
    moved: bool,
)
    requires
        v.interacting_window is None,
        v.windows.contains(id),
        v.in_sight(id, layout),
        v.focused != Some(id),
    ensures
        v.on_hover(Some(id), layout) == seq![Effect::FocusWindow { id, cause: FocusCause::Hover }],
        v.on_focus(id, FocusCause::Hover, moved).0.focused == Some(id),
        v.on_focus(id, FocusCause::Hover, moved).1.contains(Effect::SetForeground(id)),
{
    let effects = v.on_focus(id, FocusCause::Hover, moved).1;
    assert(effects[effects.len() - 2] == Effect::SetForeground(id));
}

/// Every event keeps a place on record for exactly the tracked windows.
pub proof fn law_tracked_places_are_known(v: StateView, event: WinEvent, seen: Seen)
    requires
        v.windows == v.original_rects.dom(),
    ensures
        ({
            let w = v.on_event(event, seen).0;
            w.windows == w.original_rects.dom()
        }),
{
    let w = v.on_event(event, seen).0;
    assert(w.windows =~= w.original_rects.dom());
}

/// Adopting windows at startup does so too.
pub proof fn law_adopted_places_are_known(v: StateView, found: Seq<Found>)
    requires
        v.windows == v.original_rects.dom(),
    ensures
        v.adopted(found).windows == v.adopted(found).original_rects.dom(),
        forall|i: int|
            0 <= i < found.len() ==> v.adopted(found).windows.contains((#[trigger] found[i]).id),
    decreases found.len(),
{
    if found.len() > 0 {
        let t = found.drop_last();
        law_adopted_places_are_known(v, t);
        let w = v.adopted(found);
        assert(w.windows =~= w.original_rects.dom());
        assert forall|i: int| 0 <= i < found.len() implies w.windows.contains(
            (#[trigger] found[i]).id,
        ) by {
            if i < t.len() {
                assert(t[i] == found[i]);
            }
        }
    }
}

/// No event moves a place on record: it stays what it was when the
/// window came under management.
pub proof fn law_original_places_stay(v: StateView, event: WinEvent, seen: Seen, id: WindowId)
    requires
        v.wf(),
        v.original_rects.contains_key(id),
        v.on_event(event, seen).0.original_rects.contains_key(id),
    ensures
        v.on_event(event, seen).0.original_rects[id] == v.original_rects[id],
{
    assert(v.windows.contains(id));
}

/// A managed window that is no more leaves no trace.
pub proof fn law_destroyed_windows_leave_no_trace(v: StateView, id: WindowId, seen: Seen)
    requires
        v.windows.contains(id),
    ensures
        ({
            let w = v.on_event(WinEvent::Destroyed(id), seen).0;
            &&& !w.windows.contains(id)
            &&& !w.original_rects.contains_key(id)
            &&& !w.floating.contains_key(id)
            &&& !w.borderless.contains_key(id)
            &&& !w.hidden_by_us.contains(id)
        }),
{
}

proof fn lemma_restores(
    v: StateView,
    order: Seq<WindowId>,
    alive: Set<WindowId>,
    id: WindowId,
    e: Effect,
)
    requires
        order.contains(id),
        alive.contains(id),
        v.restore_effects(id).contains(e),
    ensures
        v.restore_all_effects(order, alive).contains(e),
    decreases order.len(),
{
    let sofar = v.restore_all_effects(order.drop_last(), alive);
    let k = order.index_of(id);
    if order.last() == id {
        lemma_either(sofar, v.restore_effects(id), e);
    } else {
        assert(order.drop_last()[k] == id);
        lemma_restores(v, order.drop_last(), alive, id, e);
        lemma_either(sofar, v.restore_effects(order.last()), e);
    }
}

/// On the way out every living window gets back its decorations, its
/// original place and its visibility.
pub proof fn law_every_window_is_restored(
    v: StateView,
    order: Seq<WindowId>,
    alive: Set<WindowId>,
    id: WindowId,
)
    requires
        lists(order, v.original_rects.dom()),
        v.original_rects.contains_key(id),
        alive.contains(id),
    ensures
        ({
            let effects = v.restore_all_effects(order, alive);
            &&& effects.contains(
                Effect::RestoreBounds { id, bounds: v.original_rects[id].bounds_of() },
            )
            &&& effects.contains(Effect::Show(id))
            &&& v.borderless.contains_key(id) ==> effects.contains(
                Effect::RestoreBorders { id, removed: v.borderless[id] },
            )
            &&& !v.restored(alive).borderless.contains_key(id)
        }),
{
    assert(order.to_set().contains(id));
    let all = v.restore_effects(id);
    let borders = v.border_effects(id);
    let bounds = Effect::RestoreBounds { id, bounds: v.original_rects[id].bounds_of() };
    assert(all[borders.len() as int] == bounds);
    assert(all[borders.len() as int + 1] == Effect::Show(id));
    lemma_restores(v, order, alive, id, bounds);
    lemma_restores(v, order, alive, id, Effect::Show(id));
    if v.borderless.contains_key(id) {
        let e = Effect::RestoreBorders { id, removed: v.borderless[id] };
        assert(all[0] == e);
        lemma_restores(v, order, alive, id, e);
    }
}

/// A window made to float and put back leaves the state as it was, and
/// returns to the monitor that it came from.
pub proof fn law_float_and_back(
    v: StateView,
    id: WindowId,
    device: String,
    bounds: Option<Bounds>,
    layout: Layout,
)
    requires
        !v.floating.contains_key(id),
    ensures
        ({
            let w = v.floated(id, device, bounds, layout).0;
            &&& w.floating[id].device == device
            &&& w.unfloated(id, w.floating[id].device).0 == v
            &&& w.unfloated(id, w.floating[id].device).1[0] == (Effect::AddWindow { device, id })
        }),
{
    let w = v.floated(id, device, bounds, layout).0;
    assert(w.floating.remove(id) =~= v.floating);
}

/// Fullscreen and back: the window gets exactly the decorations that it
/// lost, and the state forgets about them.
pub proof fn law_fullscreen_and_back(v: StateView, id: WindowId, style: u32)
    requires
        !v.borderless.contains_key(id),
    ensures
        ({
            let w = v.stripped(id, style);
            &&& w.with_borders(id) == v
            &&& w.border_effects(id) == seq![
                Effect::RestoreBorders { id, removed: w.borderless[id] },
            ]
            &&& decorated(bare(style), w.borderless[id]) == style
        }),
{
    let w = v.stripped(id, style);
    assert(w.borderless.remove(id) =~= v.borderless);
    let d = decorations(style);
    assert(d | 0 == d) by (bit_vector);
    law_decorations_come_back(style);
}

proof fn lemma_workspace_ids(workspaces: Seq<Workspace>, k: int, id: WindowId)
    requires
        0 <= k < workspaces.len(),
        workspaces[k].ids().contains(id),
    ensures
        workspace_ids(workspaces).contains(id),
    decreases workspaces.len(),
{
    let t = workspaces.drop_last();
    if k < t.len() {
        assert(t[k] == workspaces[k]);
        lemma_workspace_ids(t, k, id);
    }
    lemma_either(workspace_ids(t), workspaces.last().ids(), id);
}

proof fn lemma_refuge(monitors: Seq<Monitor>, layout: Layout)
    requires
        monitors.len() > 0,
    ensures
        0 <= refuge(monitors, layout) < monitors.len(),
{
    lemma_first_where(layout.monitors@, present(monitors));
    if let Some(i) = first_where(layout.monitors@, present(monitors)) {
        assert(present(monitors)(layout.monitors@[i]));
        lemma_first_where(monitors, called(layout.monitors@[i].device@));
    }
}

/// No window is lost with its monitor as long as there is any monitor:
/// each is taken to one that is there.
pub proof fn law_no_window_is_lost_with_its_monitor(
    device: String,
    monitors: Seq<Monitor>,
    layout: Layout,
    id: WindowId,
)
    requires
        monitors.len() > 0,
        layout.at(device@) matches Some(m) && m.home(id) is Some,
    ensures
        exists|j: int|
            0 <= j < monitors.len() && rehome_effects(device, monitors, layout).contains(
                Effect::AddWindow { device: (#[trigger] monitors[j]).device, id },
            ),
{
    lemma_refuge(monitors, layout);
    let j = refuge(monitors, layout);
    let target = monitors[j].device;
    let m = layout.at(device@)->0;
    lemma_first_where(m.workspaces@, workspace_with(id));
    let home = m.home(id)->0;
    assert(workspace_with(id)(m.workspaces@[home]));
    lemma_holds(m.workspaces@[home], id);
    lemma_workspace_ids(m.workspaces@, home, id);
    let ids = m.ids();
    let k = ids.index_of(id);
    let e = Effect::AddWindow { device: target, id };
    assert(add_all(target, ids)[k] == e);
    lemma_either(seq![Effect::RemoveMonitor(device)], add_all(target, ids), e);
}

proof fn lemma_gone_has(before: Seq<Monitor>, now: Seq<Monitor>, i: int)
    requires
        0 <= i < before.len(),
        monitor_at(now, before[i].device@) is None,
    ensures
        gone_effects(before, now).contains(Effect::RehomeWindows(before[i].device)),
    decreases before.len(),
{
    let sofar = gone_effects(before.drop_last(), now);
    let all = gone_effects(before, now);
    let e = Effect::RehomeWindows(before[i].device);
    if i == before.len() - 1 {
        assert(all[sofar.len() as int] == e);
    } else {
        assert(before.drop_last()[i] == before[i]);
        lemma_gone_has(before.drop_last(), now, i);
        let k = sofar.index_of(e);
        assert(all[k] == e);
    }
}

proof fn lemma_gone_only(before: Seq<Monitor>, now: Seq<Monitor>, device: String)
    requires
        gone_effects(before, now).contains(Effect::RehomeWindows(device)),
    ensures
        monitor_at(now, device@) is None,
    decreases before.len(),
{
    if before.len() > 0 {
        let sofar = gone_effects(before.drop_last(), now);
        let all = gone_effects(before, now);
        let k = all.index_of(Effect::RehomeWindows(device));
        if k < sofar.len() {
            assert(sofar[k] == Effect::RehomeWindows(device));
            lemma_gone_only(before.drop_last(), now, device);
        }
    }
}

/// A change of the topology first makes every monitor known to the
/// layout, and then rehomes the windows of every monitor that is gone.
pub proof fn law_gone_monitors_are_rehomed(before: Seq<Monitor>, now: Seq<Monitor>, i: int)
    requires
        0 <= i < before.len(),
        monitor_at(now, before[i].device@) is None,
    ensures
        display_effects(before, now).take(now.len() as int) == adopt_monitors(now),
        display_effects(before, now).skip(now.len() as int).contains(
            Effect::RehomeWindows(before[i].device),
        ),
{
    lemma_gone_has(before, now, i);
    let gone = gone_effects(before, now);
    let all = display_effects(before, now);
    assert(all.take(now.len() as int) =~= adopt_monitors(now));
    let k = gone.index_of(Effect::RehomeWindows(before[i].device));
    assert(all.skip(now.len() as int)[k] == gone[k]);
}

/// Windows of a monitor that is still there stay on it: only monitors
/// that are gone are rehomed, and only their own windows are moved.
pub proof fn law_remaining_monitors_keep_their_windows(
    before: Seq<Monitor>,
    now: Seq<Monitor>,
    device: String,
    layout: Layout,
    target: String,
    id: WindowId,
)
    requires
        display_effects(before, now).contains(Effect::RehomeWindows(device)),
    ensures
        monitor_at(now, device@) is None,
        rehome_effects(device, now, layout).contains(Effect::AddWindow { device: target, id })
            ==> layout.at(device@) is Some && layout.at(device@)->0.ids().contains(id),
{
    let e = Effect::RehomeWindows(device);
    let adopted = adopt_monitors(now);
    let gone = gone_effects(before, now);
    let all = display_effects(before, now);
    let k = all.index_of(e);
    assert(k < (adopted + gone).len());
    assert((adopted + gone)[k] == e);
    lemma_either(adopted, gone, e);
    assert(!adopted.contains(e));
    lemma_gone_only(before, now, device);
    let moved = Effect::AddWindow { device: target, id };
    if rehome_effects(device, now, layout).contains(moved) {
        let ids = layout.at(device@)->0.ids();
        let there = now[refuge(now, layout)].device;
        let more = if now.len() > 0 {
            add_all(there, ids)
        } else {
            Seq::empty()
        };
        lemma_either(seq![Effect::RemoveMonitor(device)], more, moved);
        let j = more.index_of(moved);
        assert(ids[j] == id);
    }
}

/// As long as there is any monitor, a change of the topology leaves no
/// float on a monitor that is gone: it is on view on one that is there.
/// No other float is touched.
pub proof fn law_floats_are_rehomed(
    v: StateView,
    monitors: Seq<Monitor>,
    layout: Layout,
    id: WindowId,
)
    requires
        monitors.len() > 0,
        v.floating.contains_key(id),
    ensures
        ({
            let w = v.with_monitors(monitors, layout);
            let fs = w.floating[id];
            let gone = is_gone(v.monitors, monitors, v.floating[id].device@);
            &&& w.floating.contains_key(id)
            &&& gone ==> monitor_at(monitors, fs.device@) is Some
            &&& gone && layout.at(fs.device@) is Some ==> w.float_on_view(id, layout)
            &&& !gone ==> fs == v.floating[id]
        }),
{
    let fs = v.floating[id];
    if is_gone(v.monitors, monitors, fs.device@) {
        lemma_refuge(monitors, layout);
        let m = monitors[refuge(monitors, layout)];
        lemma_first_where(monitors, called(m.device@));
        assert(called(m.device@)(m));
    }
}

/// Floats are managed windows: every event keeps it so, and so do
/// placing a managed window, floating one, taking a float back, acting
/// on one, and a change of the topology.
pub proof fn law_floats_are_managed(
    v: StateView,
    event: WinEvent,
    seen: Seen,
    id: WindowId,
    device: String,
    rule: Option<WindowRule>,
    bounds: Option<Bounds>,
    action: Action,
    cursor: Option<String>,
    monitors: Seq<Monitor>,
    layout: Layout,
)
    requires
        v.floats_managed(),
    ensures
        v.on_event(event, seen).0.floats_managed(),
        v.windows.contains(id) ==> v.on_placed(id, device, rule, bounds, layout).0.floats_managed(),
        v.windows.contains(id) ==> v.floated(id, device, bounds, layout).0.floats_managed(),
        v.unfloated(id, device).0.floats_managed(),
        v.on_action(action, cursor, layout).0.floats_managed(),
        v.with_monitors(monitors, layout).floats_managed(),
{
    let w = v.on_event(event, seen).0;
    assert forall|x: WindowId| w.floating.contains_key(x) implies w.windows.contains(x) by {
        assert(v.floating.contains_key(x) ==> v.windows.contains(x));
    }
}

/// A newly opened window is tiled or floats, never both: when it is
/// placed it was no float, and it becomes one exactly where it is not
/// put into the layout.
pub proof fn law_new_windows_tile_or_float(
    v: StateView,
    id: WindowId,
    rect: Rect,
    device: String,
    rule: Option<WindowRule>,
    bounds: Option<Bounds>,
    layout: Layout,
)
    requires
        v.floats_managed(),
        !v.windows.contains(id),
    ensures
        ({
            let opened = v.on_opened(id, Some(rect)).0;
            let (w, effects) = opened.on_placed(id, device, rule, bounds, layout);
            &&& !opened.floating.contains_key(id)
            &&& w.floating.contains_key(id) ==> effects.len() == 0
            &&& !w.floating.contains_key(id) ==> {
                ||| effects[0] == (Effect::AddWindow { device, id })
                ||| effects[0] matches Effect::AddWindowToWorkspace { id: added, .. } && added == id
            }
        }),
{
}

proof fn lemma_rects_ids(finals: Seq<PartView>, dys: Seq<i32>)
    requires
        dys.len() == finals.len(),
    ensures
        tile_ids(rects_of(finals, dys)) == part_ids(finals),
    decreases finals.len(),
{
    if finals.len() > 0 {
        lemma_rects_ids(finals.drop_last(), dys.drop_last());
        let a = rects_of(finals.drop_last(), dys.drop_last());
        let b = shifted(finals.last().rects, dys.last());
        assert(tile_ids(a + b) =~= tile_ids(a) + tile_ids(b));
        assert(tile_ids(b) =~= tile_ids(finals.last().rects));
    }
}

/// Every frame of a slide places exactly its windows.
pub proof fn law_frame_places_every_window(finals: Seq<PartView>, camera: i64, stride: i64)
    ensures
        tile_ids(frame_at(finals, camera, stride)) == part_ids(finals),
{
    lemma_rects_ids(finals, displacements(finals, camera, stride));
}

/// A workspace that the camera is at stands exactly at its settled
/// tiles: the handover from a slide to the tiling moves nothing.
pub proof fn law_slide_settles_exactly(
    workspace: usize,
    camera: i64,
    stride: i64,
    rects: Seq<TileRect>,
)
    requires
        camera == workspace * CAMERA_UNIT,
    ensures
        displacement(workspace, camera, stride) == 0,
        shifted(rects, displacement(workspace, camera, stride)) == rects,
{
    let n = (workspace * CAMERA_UNIT - camera) * stride;
    assert(n == 0) by (nonlinear_arith)
        requires
            n == (workspace * CAMERA_UNIT - camera) * stride,
            camera == workspace * CAMERA_UNIT,
    ;
    let d = 10 * CAMERA_UNIT as int;
    assert((2 * 0 + d) / (2 * d) == 0) by (nonlinear_arith)
        requires
            d > 0,
    ;
    assert(rounded(0, d) == 0);
    assert(shifted(rects, 0) =~= rects);
}

/// While the camera is at a workspace, its neighbours are displaced by
/// at least the full height of the monitor: they are clear of the view,
/// bar zone included.
pub proof fn law_neighbours_are_clear_of_the_view(workspace: usize, camera: i64, full: Rect)
    requires
        camera == workspace * CAMERA_UNIT,
        workspace < usize::MAX,
        0 <= full.height_of() <= i32::MAX,
    ensures
        displacement((workspace + 1) as usize, camera, stride_of(full)) >= full.height_of(),
        workspace > 0 ==> displacement((workspace - 1) as usize, camera, stride_of(full))
            <= -full.height_of(),
{
    let h = full.height_of();
    let stride = stride_of(full);
    assert(stride == 11 * h);
    let d = 10 * CAMERA_UNIT as int;
    assert(d == 42_949_672_960);
    assert((workspace + 1) * CAMERA_UNIT - camera == CAMERA_UNIT);
    assert((workspace - 1) * CAMERA_UNIT - camera == -CAMERA_UNIT);
    let n = 4_294_967_296 * (11 * h);
    assert(CAMERA_UNIT * stride == n);
    assert((-CAMERA_UNIT) * stride == -n);
    assert((2 * n + 42_949_672_960) / 85_899_345_920 >= h);
    assert(rounded(n, d) >= h);
    assert(rounded(-n, d) <= -h);
}

/// The windows of a workspace slide in lockstep: they keep their sizes,
/// their columns and their distances.
pub proof fn law_workspace_slides_as_one(rects: Seq<TileRect>, dy: i32, i: int, j: int)
    requires
        0 <= i < rects.len(),
        0 <= j < rects.len(),
        i32::MIN <= rects[i].y + dy <= i32::MAX,
        i32::MIN <= rects[j].y + dy <= i32::MAX,
    ensures
        shifted(rects, dy)[i].y - shifted(rects, dy)[j].y == rects[i].y - rects[j].y,
        shifted(rects, dy)[i].x == rects[i].x,
        shifted(rects, dy)[i].w == rects[i].w,
        shifted(rects, dy)[i].h == rects[i].h,
        shifted(rects, dy)[i].id == rects[i].id,
{
}

proof fn lemma_carried(
    old: Seq<PartView>,
    new: Seq<PartView>,
    ml: MonitorLayout,
    lo: int,
    hi: int,
    k: int,
) -> (at: int)
    requires
        0 <= k < old.len(),
        !(lo <= old[k].workspace <= hi),
    ensures
        0 <= at < carried(old, new, ml, lo, hi).len(),
        carried(old, new, ml, lo, hi)[at] == carried_part(old[k], old, new, ml),
{
    broadcast use vstd::seq_lib::group_filter_ensures;

    let p = beyond(lo, hi);
    assert(p(old[k]));
    assert(old.contains(old[k]));
    assert(old.filter(p).contains(old[k]));
    old.filter(p).index_of(old[k])
}

proof fn lemma_carried_from(
    old: Seq<PartView>,
    new: Seq<PartView>,
    ml: MonitorLayout,
    lo: int,
    hi: int,
    at: int,
) -> (k: int)
    requires
        0 <= at < carried(old, new, ml, lo, hi).len(),
    ensures
        0 <= k < old.len(),
        !(lo <= old[k].workspace <= hi),
        carried(old, new, ml, lo, hi)[at] == carried_part(old[k], old, new, ml),
{
    broadcast use vstd::seq_lib::group_filter_ensures;

    let outer = old.filter(beyond(lo, hi));
    assert(beyond(lo, hi)(outer[at]));
    assert(outer.contains(outer[at]));
    old.lemma_filter_contains_rev(beyond(lo, hi), outer[at]);
    old.index_of(outer[at])
}

/// A new slide takes along every workspace between the old one and the
/// new one, and every workspace that an interrupted slide had moving.
pub proof fn law_slide_takes_everything_along(
    old: Option<Seq<PartView>>,
    tiles: Seq<Seq<TileRect>>,
    ml: MonitorLayout,
    lo: int,
    hi: int,
    workspace: usize,
)
    requires
        0 <= lo <= hi,
        tiles.len() <= usize::MAX,
        (lo <= workspace <= hi && workspace < tiles.len()) || (!(lo <= workspace <= hi)
            && old is Some && exists|k: int|
            0 <= k < old->0.len() && (#[trigger] old->0[k]).workspace == workspace),
    ensures
        exists|i: int|
            0 <= i < merged(old, tiles, ml, lo, hi).len() && (#[trigger] merged(
                old,
                tiles,
                ml,
                lo,
                hi,
            )[i]).workspace == workspace,
{
    let new = fresh(tiles, lo, hi);
    let all = merged(old, tiles, ml, lo, hi);
    if lo <= workspace <= hi {
        assert(all[workspace - lo].workspace == workspace);
    } else {
        let parts = old->0;
        let k = choose|k: int|
            0 <= k < parts.len() && (#[trigger] parts[k]).workspace == workspace;
        let at = lemma_carried(parts, new, ml, lo, hi, k);
        assert(all[new.len() + at].workspace == workspace);
    }
}

proof fn lemma_taken_from(
    rects: Seq<TileRect>,
    ids: Seq<WindowId>,
    covered: Seq<WindowId>,
    r: TileRect,
)
    requires
        taken_along(rects, ids, covered).contains(r),
    ensures
        rects.contains(r),
        ids.contains(r.id),
        !covered.contains(r.id),
    decreases rects.len(),
{
    if rects.len() > 0 {
        let t = rects.drop_last();
        let sofar = taken_along(t, ids, covered);
        let all = taken_along(rects, ids, covered);
        let i = all.index_of(r);
        if i < sofar.len() {
            assert(sofar[i] == r);
            lemma_taken_from(t, ids, covered, r);
            let j = t.index_of(r);
            assert(rects[j] == r);
        } else {
            assert(rects[rects.len() - 1] == r);
        }
    }
}

proof fn lemma_taken_has(
    rects: Seq<TileRect>,
    ids: Seq<WindowId>,
    covered: Seq<WindowId>,
    id: WindowId,
)
    requires
        tile_ids(rects).contains(id),
        ids.contains(id),
        !covered.contains(id),
    ensures
        tile_ids(taken_along(rects, ids, covered)).contains(id),
    decreases rects.len(),
{
    let t = rects.drop_last();
    let sofar = taken_along(t, ids, covered);
    let all = taken_along(rects, ids, covered);
    let k = tile_ids(rects).index_of(id);
    if rects.last().id == id {
        if !tile_ids(sofar).contains(id) {
            assert(tile_ids(all)[sofar.len() as int] == id);
        }
    } else {
        assert(tile_ids(t)[k] == id);
        lemma_taken_has(t, ids, covered, id);
    }
    if tile_ids(sofar).contains(id) {
        let i = tile_ids(sofar).index_of(id);
        assert(tile_ids(all)[i] == id);
    }
}

/// A window that an interrupted slide had moving, and that is now on one
/// of its workspaces outside the new range, keeps sliding with that
/// workspace, even if it was on another one before.
pub proof fn law_moved_windows_are_taken_along(
    old: Seq<PartView>,
    tiles: Seq<Seq<TileRect>>,
    ml: MonitorLayout,
    lo: int,
    hi: int,
    k: int,
    id: WindowId,
)
    requires
        0 <= k < old.len(),
        !(lo <= old[k].workspace <= hi),
        part_ids(old).contains(id),
        ids_on(ml, old[k].workspace as int).contains(id),
        !part_ids(fresh(tiles, lo, hi)).contains(id),
    ensures
        exists|i: int|
            0 <= i < merged(Some(old), tiles, ml, lo, hi).len() && {
                let p = #[trigger] merged(Some(old), tiles, ml, lo, hi)[i];
                p.workspace == old[k].workspace && tile_ids(p.rects).contains(id)
            },
{
    let new = fresh(tiles, lo, hi);
    let all = merged(Some(old), tiles, ml, lo, hi);
    let at = lemma_carried(old, new, ml, lo, hi, k);
    lemma_all_ids(old);
    lemma_taken_has(all_tiles(old), ids_on(ml, old[k].workspace as int), part_ids(new), id);
    assert(all[new.len() + at] == carried_part(old[k], old, new, ml));
}

proof fn lemma_all_ids(finals: Seq<PartView>)
    ensures
        tile_ids(all_tiles(finals)) == part_ids(finals),
    decreases finals.len(),
{
    if finals.len() > 0 {
        lemma_all_ids(finals.drop_last());
        let a = all_tiles(finals.drop_last());
        let b = finals.last().rects;
        assert(tile_ids(a + b) =~= tile_ids(a) + tile_ids(b));
    }
}

proof fn lemma_all_has(finals: Seq<PartView>, k: int, r: TileRect)
    requires
        0 <= k < finals.len(),
        finals[k].rects.contains(r),
    ensures
        all_tiles(finals).contains(r),
    decreases finals.len(),
{
    let t = finals.drop_last();
    if k < t.len() {
        assert(t[k] == finals[k]);
        lemma_all_has(t, k, r);
    }
    lemma_either(all_tiles(t), finals.last().rects, r);
}

/// A window that is in one participant only once is in no other.
proof fn lemma_one_part(finals: Seq<PartView>, j: int, k: int, id: WindowId)
    requires
        part_ids(finals).no_duplicates(),
        0 <= j < finals.len(),
        0 <= k < finals.len(),
        tile_ids(finals[j].rects).contains(id),
        tile_ids(finals[k].rects).contains(id),
    ensures
        j == k,
    decreases finals.len(),
{
    let t = finals.drop_last();
    let a = part_ids(t);
    let b = tile_ids(finals.last().rects);
    assert(part_ids(finals) == a + b);
    assert(a.no_duplicates()) by {
        assert forall|x: int, y: int| 0 <= x < a.len() && 0 <= y < a.len() && x != y implies a[x]
            != a[y] by {
            assert((a + b)[x] == a[x]);
            assert((a + b)[y] == a[y]);
        }
    }
    let last = finals.len() - 1;
    if j < last && k < last {
        assert(t[j] == finals[j]);
        assert(t[k] == finals[k]);
        lemma_one_part(t, j, k, id);
    } else if j != k {
        let inner = if j < last {
            j
        } else {
            k
        };
        assert(t[inner] == finals[inner]);
        lemma_part_ids_has(t, inner, id);
        let x = a.index_of(id);
        let y = b.index_of(id);
        assert((a + b)[x] == id);
        assert((a + b)[a.len() + y] == id);
    }
}

/// Two settled tiles of one window are the same.
proof fn lemma_one_tile(rects: Seq<TileRect>, r: TileRect, q: TileRect)
    requires
        tile_ids(rects).no_duplicates(),
        rects.contains(r),
        rects.contains(q),
        r.id == q.id,
    ensures
        r == q,
{
    let i = rects.index_of(r);
    let j = rects.index_of(q);
    assert(tile_ids(rects)[i] == tile_ids(rects)[j]);
}

proof fn lemma_frame_has(finals: Seq<PartView>, dys: Seq<i32>, k: int, t: TileRect)
    requires
        0 <= k < finals.len(),
        dys.len() == finals.len(),
        shifted(finals[k].rects, dys[k]).contains(t),
    ensures
        rects_of(finals, dys).contains(t),
    decreases finals.len(),
{
    let sofar = rects_of(finals.drop_last(), dys.drop_last());
    let more = shifted(finals.last().rects, dys.last());
    lemma_either(sofar, more, t);
    if k < finals.len() - 1 {
        assert(finals.drop_last()[k] == finals[k]);
        assert(dys.drop_last()[k] == dys[k]);
        lemma_frame_has(finals.drop_last(), dys.drop_last(), k, t);
    }
}

proof fn lemma_frame_from(finals: Seq<PartView>, dys: Seq<i32>, t: TileRect) -> (k: int)
    requires
        dys.len() == finals.len(),
        rects_of(finals, dys).contains(t),
    ensures
        0 <= k < finals.len(),
        shifted(finals[k].rects, dys[k]).contains(t),
    decreases finals.len(),
{
    let sofar = rects_of(finals.drop_last(), dys.drop_last());
    let more = shifted(finals.last().rects, dys.last());
    lemma_either(sofar, more, t);
    if more.contains(t) {
        finals.len() - 1
    } else {
        let k = lemma_frame_from(finals.drop_last(), dys.drop_last(), t);
        assert(finals.drop_last()[k] == finals[k]);
        assert(dys.drop_last()[k] == dys[k]);
        k
    }
}

/// A window of an interrupted slide whose workspace lies outside the new
/// range and still holds it does not move at the handover: wherever the
/// camera is, the new slide has it exactly where the old one had it.
pub proof fn law_handover_is_seamless(
    old: Seq<PartView>,
    tiles: Seq<Seq<TileRect>>,
    ml: MonitorLayout,
    lo: int,
    hi: int,
    camera: i64,
    stride: i64,
    k: int,
    t: TileRect,
)
    requires
        part_ids(old).no_duplicates(),
        0 <= k < old.len(),
        !(lo <= old[k].workspace <= hi),
        tile_ids(old[k].rects).contains(t.id),
        ids_on(ml, old[k].workspace as int).contains(t.id),
        forall|j: int|
            #![trigger old[j]]
            0 <= j < old.len() && ids_on(ml, old[j].workspace as int).contains(t.id)
                ==> old[j].workspace == old[k].workspace,
        !part_ids(fresh(tiles, lo, hi)).contains(t.id),
    ensures
        frame_at(merged(Some(old), tiles, ml, lo, hi), camera, stride).contains(t) <==> frame_at(
            old,
            camera,
            stride,
        ).contains(t),
{
    let new = fresh(tiles, lo, hi);
    let all = merged(Some(old), tiles, ml, lo, hi);
    let dys = displacements(all, camera, stride);
    let old_dys = displacements(old, camera, stride);
    let ids = ids_on(ml, old[k].workspace as int);
    let covered = part_ids(new);
    let taken = taken_along(all_tiles(old), ids, covered);
    lemma_all_ids(old);
    // The window's one settled tile, which the new slide has too.
    let own = old[k].rects;
    let r = own[tile_ids(own).index_of(t.id)];
    assert(r.id == t.id);
    assert(own.contains(r));
    lemma_all_has(old, k, r);
    lemma_part_ids_has(old, k, t.id);
    lemma_taken_has(all_tiles(old), ids, covered, t.id);
    let q = taken[tile_ids(taken).index_of(t.id)];
    assert(taken.contains(q));
    lemma_taken_from(all_tiles(old), ids, covered, q);
    lemma_one_tile(all_tiles(old), r, q);
    if frame_at(old, camera, stride).contains(t) {
        let j = lemma_frame_from(old, old_dys, t);
        lemma_tile_in_part(old[j], old_dys[j], t);
        lemma_one_part(old, j, k, t.id);
        let x = shifted(own, old_dys[k]).index_of(t);
        assert(own.contains(own[x]));
        lemma_all_has(old, k, own[x]);
        lemma_one_tile(all_tiles(old), r, own[x]);
        let at = lemma_carried(old, new, ml, lo, hi, k);
        let i = new.len() + at;
        assert(all[i] == carried_part(old[k], old, new, ml));
        let y = taken.index_of(q);
        assert(shifted(taken, dys[i])[y] == t);
        lemma_frame_has(all, dys, i, t);
    }
    if frame_at(all, camera, stride).contains(t) {
        let i = lemma_frame_from(all, dys, t);
        lemma_tile_in_part(all[i], dys[i], t);
        if i < new.len() {
            assert(all[i] == new[i]);
            lemma_part_ids_has(new, i, t.id);
        } else {
            let j = lemma_carried_from(old, new, ml, lo, hi, i - new.len());
            assert(all[i] == carried_part(old[j], old, new, ml));
            let there = taken_along(
                all_tiles(old),
                ids_on(ml, old[j].workspace as int),
                covered,
            );
            let x = shifted(there, dys[i]).index_of(t);
            assert(there.contains(there[x]));
            lemma_taken_from(
                all_tiles(old),
                ids_on(ml, old[j].workspace as int),
                covered,
                there[x],
            );
            lemma_one_tile(all_tiles(old), r, there[x]);
            assert(dys[i] == old_dys[k]);
            let y = own.index_of(r);
            assert(shifted(own, old_dys[k])[y] == t);
            lemma_frame_has(old, old_dys, k, t);
        }
    }
}

proof fn lemma_tile_in_part(p: PartView, dy: i32, t: TileRect)
    requires
        shifted(p.rects, dy).contains(t),
    ensures
        tile_ids(p.rects).contains(t.id),
{
    let j = shifted(p.rects, dy).index_of(t);
    assert(tile_ids(p.rects)[j] == t.id);
}

proof fn lemma_part_ids_has(finals: Seq<PartView>, k: int, id: WindowId)
    requires
        0 <= k < finals.len(),
        tile_ids(finals[k].rects).contains(id),
    ensures
        part_ids(finals).contains(id),
    decreases finals.len(),
{
    let t = finals.drop_last();
    if k < t.len() {
        assert(t[k] == finals[k]);
        lemma_part_ids_has(t, k, id);
    }
    lemma_either(part_ids(t), tile_ids(finals.last().rects), id);
}

proof fn lemma_columns_lack_dragged(
    tiles: Seq<TileRect>,
    ws: Workspace,
    id: WindowId,
    c: int,
    i: int,
)
    requires
        0 <= c < columns_of(tiles, ws, id).len(),
        0 <= i < columns_of(tiles, ws, id)[c].len(),
    ensures
        columns_of(tiles, ws, id)[c][i].id != id,
{
    let p = in_column(ws, id, c);
    broadcast use vstd::seq_lib::group_filter_ensures;

    assert(p(tiles.filter(p)[i]));
}

proof fn lemma_last_left(cols: Seq<Seq<TileRect>>, n: int, cx: i32, gap: i64) -> (c: int)
    requires
        n <= cols.len(),
        last_left(cols, n, cx, gap) is Some,
    ensures
        0 <= c < n,
        cols[c].len() > 0,
        last_left(cols, n, cx, gap) == Some(cols[c][0].id),
    decreases n,
{
    if cols[n - 1].len() > 0 && past_right(cols, n - 1, cx, gap) {
        n - 1
    } else {
        lemma_last_left(cols, n - 1, cx, gap)
    }
}

/// A dragged window is never its own drop target.
pub proof fn law_dragged_window_is_no_target(
    tiles: Seq<TileRect>,
    ws: Workspace,
    id: WindowId,
    cx: i32,
    cy: i32,
    gap: i64,
)
    ensures
        match place_at(columns_of(tiles, ws, id), cx, cy, gap) {
            DropPlace::Into { anchor, .. } => anchor != id,
            DropPlace::Beside { after } => after != Some(id),
        },
{
    let cols = columns_of(tiles, ws, id);
    let on = hits(cols, cx, gap);
    lemma_first_where(on, is_hit());
    match first_where(on, is_hit()) {
        Some(c) => {
            assert(is_hit()(on[c]));
            lemma_first_where(cols[c], middle_below(cy));
            match first_where(cols[c], middle_below(cy)) {
                Some(i) => {
                    lemma_columns_lack_dragged(tiles, ws, id, c, i);
                },
                None => {
                    lemma_columns_lack_dragged(tiles, ws, id, c, cols[c].len() - 1);
                },
            }
        },
        None => {
            if last_left(cols, cols.len() as int, cx, gap) is Some {
                let c = lemma_last_left(cols, cols.len() as int, cx, gap);
                lemma_columns_lack_dragged(tiles, ws, id, c, 0);
            }
        },
    }
}

proof fn lemma_last_left_is(cols: Seq<Seq<TileRect>>, n: int, cx: i32, gap: i64, a: int)
    requires
        0 <= a < n <= cols.len(),
        cols[a].len() > 0,
        past_right(cols, a, cx, gap),
        forall|c: int|
            a < c < n && (#[trigger] cols[c]).len() > 0 ==> !past_right(cols, c, cx, gap),
    ensures
        last_left(cols, n, cx, gap) == Some(cols[a][0].id),
    decreases n,
{
    if a < n - 1 {
        assert(cols[n - 1].len() > 0 ==> !past_right(cols, n - 1, cx, gap));
        lemma_last_left_is(cols, n - 1, cx, gap, a);
    }
}

/// A window dropped in the gap between column `a` and the next column
/// with a tile joins neither stack: it becomes a column of its own right
/// after `a`.
pub proof fn law_gap_makes_a_column_of_its_own(
    cols: Seq<Seq<TileRect>>,
    a: int,
    b: int,
    cx: i32,
    cy: i32,
    gap: i64,
)
    requires
        0 <= a < b < cols.len(),
        cols[a].len() > 0,
        cols[b].len() > 0,
        gap >= 0,
        forall|c: int|
            0 <= c <= a && (#[trigger] cols[c]).len() > 0 ==> cols[c][0].x + cols[c][0].w <= cx,
        forall|c: int|
            a < c < cols.len() && (#[trigger] cols[c]).len() > 0 ==> cx < cols[c][0].x
                && cols[c][0].w >= 0,
    ensures
        place_at(cols, cx, cy, gap) == (DropPlace::Beside { after: Some(cols[a][0].id) }),
{
    let on = hits(cols, cx, gap);
    assert(!is_last(cols, a));
    assert forall|c: int| 0 <= c < on.len() implies !is_hit()(#[trigger] on[c]) by {
        if cols[c].len() > 0 {
            if c <= a {
                assert(!is_last(cols, c));
                assert(cols[c][0].x + cols[c][0].w <= cx);
                assert(past_right(cols, c, cx, gap));
            } else {
                assert(!is_first(cols, c));
                assert(!past_left(cols, c, cx, gap));
            }
        }
    }
    lemma_first_none(on, is_hit());
    assert(past_right(cols, a, cx, gap));
    lemma_last_left_is(cols, cols.len() as int, cx, gap, a);
}

/// A window dropped half a gap or less right of the last column joins
/// its stack.
pub proof fn law_outer_gap_joins_the_last_column(
    cols: Seq<Seq<TileRect>>,
    a: int,
    cx: i32,
    cy: i32,
    gap: i64,
)
    requires
        0 <= a < cols.len(),
        cols[a].len() > 0,
        forall|k: int| a < k < cols.len() ==> (#[trigger] cols[k]).len() == 0,
        gap >= 0,
        cols[a][0].x <= cx,
        2 * SUBPIXEL * cx < 2 * SUBPIXEL * (cols[a][0].x + cols[a][0].w) + gap,
        forall|c: int|
            0 <= c < a && (#[trigger] cols[c]).len() > 0 ==> cols[c][0].x + cols[c][0].w <= cx,
    ensures
        place_at(cols, cx, cy, gap) == slot_of(cols[a], cy),
{
    let on = hits(cols, cx, gap);
    let unit = 2 * SUBPIXEL;
    assert(unit == 2_000_000);
    let x = cols[a][0].x;
    assert(unit * cx >= unit * x) by (nonlinear_arith)
        requires
            unit > 0,
            x <= cx,
    ;
    assert(past_left(cols, a, cx, gap));
    assert(!past_right(cols, a, cx, gap));
    assert(on[a]);
    assert forall|c: int| 0 <= c < a implies !is_hit()(#[trigger] on[c]) by {
        if cols[c].len() > 0 {
            assert(!is_last(cols, c));
            let edge = cols[c][0].x + cols[c][0].w;
            assert(edge <= cx);
            assert(unit * cx >= unit * edge) by (nonlinear_arith)
                requires
                    unit > 0,
                    edge <= cx,
            ;
            assert(past_right(cols, c, cx, gap));
        }
    }
    lemma_first_is(on, is_hit(), a);
}

/// A window dropped half a gap or less left of the first column joins
/// its stack.
pub proof fn law_outer_gap_joins_the_first_column(
    cols: Seq<Seq<TileRect>>,
    a: int,
    cx: i32,
    cy: i32,
    gap: i64,
)
    requires
        0 <= a < cols.len(),
        cols[a].len() > 0,
        forall|k: int| 0 <= k < a ==> (#[trigger] cols[k]).len() == 0,
        cols[a][0].w > 0,
        gap >= 0,
        2 * SUBPIXEL * cols[a][0].x - gap <= 2 * SUBPIXEL * cx,
        cx < cols[a][0].x,
    ensures
        place_at(cols, cx, cy, gap) == slot_of(cols[a], cy),
{
    let on = hits(cols, cx, gap);
    let unit = 2 * SUBPIXEL;
    let edge = cols[a][0].x + cols[a][0].w;
    assert(unit == 2_000_000);
    assert(cx < edge);
    assert(unit * cx < unit * edge) by (nonlinear_arith)
        requires
            unit > 0,
            cx < edge,
    ;
    assert(past_left(cols, a, cx, gap));
    assert(!past_right(cols, a, cx, gap));
    assert(on[a]);
    assert forall|c: int| 0 <= c < a implies !is_hit()(#[trigger] on[c]) by {
        assert(cols[c].len() == 0);
    }
    lemma_first_is(on, is_hit(), a);
}

/// While management is suspended the end of a drag moves nothing and
/// focuses nothing.
pub proof fn law_suspended_drags_move_nothing(
    v: StateView,
    id: WindowId,
    seen: DropSight,
    layout: Layout,
)
    requires
        v.suspended,
    ensures
        v.drag_effects(id, seen, layout) == Seq::<Effect>::empty(),
{
}

/// A configuration file is loaded once per change: a second poll of the
/// same file finds nothing to load, a change is found again.
pub proof fn law_config_is_loaded_once(v: StateView, mtime: i128, later: i128)
    ensures
        !v.polled(Some(mtime)).outdated(Some(mtime)),
        later != mtime ==> v.polled(Some(mtime)).outdated(Some(later)),
        !v.outdated(None),
{
}

/// A forced reload loads a readable file whatever was loaded before, and
/// applying what it holds takes all of it into effect: the settings, the
/// animations and the layout parameters, before anything is tiled anew.
pub proof fn law_forced_reload_takes_effect(v: StateView, mtime: i128, settings: Settings)
    ensures
        (StateView { config_mtime: None, ..v }).outdated(Some(mtime)),
        ({
            let effects = v.config_effects(settings);
            &&& effects[0] == Effect::SetAnimationParams
            &&& effects[1] == Effect::SetLayoutParams
            &&& settings.mod_key@ != v.settings.mod_key@ ==> effects[2] == Effect::SetModKey
            &&& effects[effects.len() - 2] == Effect::UpdateBinds
            &&& effects.last() == Effect::Reflow
        }),
{
}

/// Leaving the overviews leaves every one of them.
pub proof fn law_every_overview_is_left(monitors: Seq<MonitorLayout>, i: int)
    requires
        0 <= i < monitors.len(),
        monitors[i].active().is_overview,
    ensures
        exit_effects(monitors).contains(Effect::ExitOverview(monitors[i].device)),
    decreases monitors.len(),
{
    let sofar = exit_effects(monitors.drop_last());
    let all = exit_effects(monitors);
    let e = Effect::ExitOverview(monitors[i].device);
    if i == monitors.len() - 1 {
        assert(all[sofar.len() as int] == e);
    } else {
        assert(monitors.drop_last()[i] == monitors[i]);
        law_every_overview_is_left(monitors.drop_last(), i);
        let k = sofar.index_of(e);
        assert(all[k] == e);
    }
}

} // verus!

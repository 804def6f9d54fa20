//! What window events, the pointer and the end of the program do to a
//! single window and to all the others.

use crate::effect::{Effect, FocusCause};
use crate::events::{index_of, placement_effects, MinSize, Seen, WinEvent, WindowRule};
use crate::geometry::{Bounds, WindowId, SUBPIXEL};
use crate::laws::lookup::{
    is_first_on, is_known, is_spot, is_unknown, law_layouts_are_found_by_name,
    law_on_view_is_on_a_workspace_shown, law_windows_are_found_on_a_monitor,
    law_windows_are_found_on_a_workspace, lives_on,
};
use crate::laws::tiling::{is_afloat, law_floats_on_view_are_afloat, lemma_joined};
use crate::layout::Layout;
use crate::lifecycle::{place_found, Found};
use crate::state::{lists, StateView};
use vstd::prelude::*;

verus! {

/// The window is on a workspace that a monitor shows, as a tile or as a
/// float.
pub open spec fn is_visible(v: StateView, layout: Layout, id: WindowId) -> bool {
    ||| is_afloat(v, layout, id)
    ||| exists|i: int|
        0 <= i < layout.monitors@.len() && is_first_on(
            #[trigger] layout.monitors@[i],
            id,
            layout.monitors@[i].active_workspace_idx as int,
        )
}

/// A window is in sight exactly when a monitor shows its workspace.
pub proof fn law_in_sight_is_visible(v: StateView, layout: Layout, id: WindowId)
    ensures
        v.in_sight(id, layout) <==> is_visible(v, layout, id),
{
    law_on_view_is_on_a_workspace_shown(layout, id);
    law_floats_on_view_are_afloat(v, layout, id);
}

/// An event that brings a window into view.
pub open spec fn is_opening(event: WinEvent, id: WindowId) -> bool {
    event == WinEvent::Shown(id) || event == WinEvent::Uncloaked(id) || event
        == WinEvent::MinimizeEnded(id)
}

/// An event that takes a window out of view.
pub open spec fn is_closing(event: WinEvent, id: WindowId) -> bool {
    event == WinEvent::Hidden(id) || event == WinEvent::Cloaked(id) || event
        == WinEvent::MinimizeStarted(id)
}

/// A window that comes into view and can be managed is tracked from then
/// on, with the place it has now on record, is placed and tiled. One
/// that is tracked already, or cannot be managed, changes nothing. No
/// other window is touched.
pub proof fn law_opened_windows_are_tracked(
    v: StateView,
    event: WinEvent,
    seen: Seen,
    id: WindowId,
    other: WindowId,
)
    requires
        is_opening(event, id),
    ensures
        ({
            let (w, effects) = v.on_event(event, seen);
            let new = seen.manageable is Some && !v.windows.contains(id);
            &&& new ==> effects == seq![Effect::PlaceWindow(id), Effect::Reflow]
            &&& new ==> w.windows.contains(id) && w.original_rects.contains_key(id)
                && w.original_rects[id] == seen.manageable->0
            &&& !new ==> w == v && effects.len() == 0
            &&& other != id ==> w.windows.contains(other) == v.windows.contains(other)
            &&& other != id ==> w.original_rects.contains_key(other)
                == v.original_rects.contains_key(other)
            &&& other != id && v.original_rects.contains_key(other) ==> w.original_rects[other]
                == v.original_rects[other]
            &&& StateView { windows: v.windows, original_rects: v.original_rects, ..w } == v
        }),
{
    let w = v.on_event(event, seen).0;
    assert((StateView { windows: v.windows, original_rects: v.original_rects, ..w }) =~= v);
}

/// Nothing is left of the window but whether we hid it.
pub open spec fn forgets(w: StateView, id: WindowId) -> bool {
    &&& !w.windows.contains(id)
    &&& !w.floating.contains_key(id)
    &&& !w.borderless.contains_key(id)
    &&& !w.original_rects.contains_key(id)
}

/// Everything about another window is as it was.
pub open spec fn keeps(v: StateView, w: StateView, id: WindowId) -> bool {
    &&& w.windows.contains(id) == v.windows.contains(id)
    &&& w.floating.contains_key(id) == v.floating.contains_key(id)
    &&& w.borderless.contains_key(id) == v.borderless.contains_key(id)
    &&& w.original_rects.contains_key(id) == v.original_rects.contains_key(id)
    &&& w.hidden_by_us.contains(id) == v.hidden_by_us.contains(id)
    &&& v.floating.contains_key(id) ==> w.floating[id] == v.floating[id]
    &&& v.borderless.contains_key(id) ==> w.borderless[id] == v.borderless[id]
    &&& v.original_rects.contains_key(id) ==> w.original_rects[id] == v.original_rects[id]
}

/// What is not about single windows is as it was.
pub open spec fn keeps_the_rest(v: StateView, w: StateView) -> bool {
    StateView {
        windows: v.windows,
        floating: v.floating,
        borderless: v.borderless,
        original_rects: v.original_rects,
        hidden_by_us: v.hidden_by_us,
        ..w
    } == v
}

/// A tracked window that goes out of view, other than by our own doing,
/// or that is destroyed, is forgotten: it leaves the layout and is no
/// longer animated, gets its decorations back if it had lost them, and
/// all is tiled. An untracked one changes nothing but, when destroyed,
/// that it is no longer registered as hidden. No other window is
/// touched.
pub proof fn law_closed_windows_are_forgotten(
    v: StateView,
    event: WinEvent,
    seen: Seen,
    id: WindowId,
    other: WindowId,
)
    requires
        (is_closing(event, id) && !v.hidden_by_us.contains(id)) || event == WinEvent::Destroyed(id),
    ensures
        ({
            let (w, effects) = v.on_event(event, seen);
            let n = effects.len();
            &&& v.windows.contains(id) ==> {
                &&& forgets(w, id)
                &&& effects[0] == Effect::RemoveWindow(id)
                &&& effects[1] == Effect::RemoveAnimation(id)
                &&& effects[n - 1] == Effect::Reflow
                &&& v.borderless.contains_key(id) ==> n == 4 && effects[2] == (
                Effect::RestoreBorders { id, removed: v.borderless[id] })
                &&& !v.borderless.contains_key(id) ==> n == 3
            }
            &&& !v.windows.contains(id) ==> n == 0 && StateView {
                hidden_by_us: v.hidden_by_us,
                ..w
            } == v
            &&& !w.hidden_by_us.contains(id)
            &&& other != id ==> keeps(v, w, other)
            &&& keeps_the_rest(v, w)
        }),
{
    let w = v.on_event(event, seen).0;
    assert((StateView {
        windows: v.windows,
        floating: v.floating,
        borderless: v.borderless,
        original_rects: v.original_rects,
        hidden_by_us: v.hidden_by_us,
        ..w
    }) =~= v);
    assert(!v.windows.contains(id) ==> (StateView { hidden_by_us: v.hidden_by_us, ..w }) =~= v);
}

/// Taking hold of a tracked window makes it the held one, from where it
/// is, and only that; the ring is updated. Of an untracked one nothing
/// comes.
pub proof fn law_grabbed_windows_are_held(v: StateView, seen: Seen, id: WindowId)
    ensures
        ({
            let (w, effects) = v.on_event(WinEvent::MoveSizeStart(id), seen);
            &&& v.windows.contains(id) ==> w.interacting_window == Some(id) && w.interact_start
                == seen.bounds && effects == seq![Effect::UpdateFocusBorder]
            &&& !v.windows.contains(id) ==> w == v && effects.len() == 0
            &&& StateView {
                interacting_window: v.interacting_window,
                interact_start: v.interact_start,
                ..w
            } == v
        }),
{
    let w = v.on_event(WinEvent::MoveSizeStart(id), seen).0;
    assert((StateView {
        interacting_window: v.interacting_window,
        interact_start: v.interact_start,
        ..w
    }) =~= v);
}

/// Letting go of the held window ends the hold. A float stays exactly
/// where it was put, on its monitor and workspace; a tiled window is
/// dropped. Letting go of any other window is nothing.
pub proof fn law_released_windows_stay_or_drop(
    v: StateView,
    seen: Seen,
    id: WindowId,
    other: WindowId,
)
    ensures
        ({
            let (w, effects) = v.on_event(WinEvent::MoveSizeEnd(id), seen);
            let held = v.interacting_window == Some(id);
            let fs = v.floating[id];
            &&& !held ==> w == v && effects.len() == 0
            &&& held ==> w.interacting_window is None
            &&& held && !v.floating.contains_key(id) ==> effects == seq![Effect::DragEnd(id)]
                && w.floating == v.floating
            &&& held && v.floating.contains_key(id) ==> {
                &&& effects.len() == 0
                &&& w.floating.contains_key(id)
                &&& w.floating[id].device == fs.device
                &&& w.floating[id].workspace_idx == fs.workspace_idx
                &&& seen.bounds is None ==> w.floating[id].rect == fs.rect
                &&& seen.bounds matches Some(b) ==> w.floating[id].rect.x == b.x * SUBPIXEL
                    && w.floating[id].rect.y == b.y * SUBPIXEL && w.floating[id].rect.w == b.w
                    * SUBPIXEL && w.floating[id].rect.h == b.h * SUBPIXEL
            }
            &&& other != id ==> w.floating.contains_key(other) == v.floating.contains_key(other)
            &&& other != id && v.floating.contains_key(other) ==> w.floating[other]
                == v.floating[other]
            &&& StateView {
                interacting_window: v.interacting_window,
                floating: v.floating,
                ..w
            } == v
        }),
{
    let w = v.on_event(WinEvent::MoveSizeEnd(id), seen).0;
    assert((StateView {
        interacting_window: v.interacting_window,
        floating: v.floating,
        ..w
    }) =~= v);
}

/// A window that comes to the foreground is the focused one, and the
/// layout's focus follows if that is news. The bars go back on top every
/// time.
pub proof fn law_foreground_is_followed(v: StateView, seen: Seen, id: WindowId)
    ensures
        ({
            let (w, effects) = v.on_event(WinEvent::Foreground(id), seen);
            &&& w == (StateView { focused: Some(id), ..v })
            &&& v.focused == Some(id) ==> effects == seq![Effect::RaiseBars]
            &&& v.focused != Some(id) ==> effects == seq![
                Effect::FocusWindow { id, cause: FocusCause::Foreground },
                Effect::RaiseBars,
            ]
        }),
{
    let w = v.on_event(WinEvent::Foreground(id), seen).0;
    assert(w =~= (StateView { focused: Some(id), ..v }));
}

/// What follows a move of the layout's focus. Where the layout has the
/// window, it is scrolled to and all is tiled; where it does not, only
/// the ring is updated. The system's focus follows the pointer and the
/// overview.
pub proof fn law_what_follows_a_focus(v: StateView, id: WindowId)
    ensures
        v.on_focus(id, FocusCause::Foreground, true) == (
            v,
            seq![Effect::UpdateFocusView(id), Effect::Reflow],
        ),
        v.on_focus(id, FocusCause::Foreground, false) == (v, seq![Effect::UpdateFocusBorder]),
        v.on_focus(id, FocusCause::Hover, true) == (
            StateView { focused: Some(id), ..v },
            seq![
                Effect::UpdateFocusView(id),
                Effect::Reflow,
                Effect::SetForeground(id),
                Effect::RaiseBars,
            ],
        ),
        v.on_focus(id, FocusCause::Hover, false) == (
            StateView { focused: Some(id), ..v },
            seq![Effect::UpdateFocusBorder, Effect::SetForeground(id), Effect::RaiseBars],
        ),
        v.on_focus(id, FocusCause::OverviewClick, true) == (
            StateView { focused: Some(id), ..v },
            seq![Effect::UpdateFocusView(id), Effect::Reflow, Effect::SyncFocus],
        ),
        v.on_focus(id, FocusCause::OverviewClick, false) == (
            v,
            seq![Effect::Reflow, Effect::SyncFocus],
        ),
{
    assert(v.on_focus(id, FocusCause::Hover, true).1 =~= seq![
        Effect::UpdateFocusView(id),
        Effect::Reflow,
        Effect::SetForeground(id),
        Effect::RaiseBars,
    ]);
    assert(v.on_focus(id, FocusCause::Hover, false).1 =~= seq![
        Effect::UpdateFocusBorder,
        Effect::SetForeground(id),
        Effect::RaiseBars,
    ]);
}

/// The window under the pointer is focused exactly when it is tracked,
/// visible and not focused yet, while the user holds no window.
pub proof fn law_hovering_focuses_visible_windows(
    v: StateView,
    under: Option<WindowId>,
    layout: Layout,
)
    ensures
        under is None || v.interacting_window is Some ==> v.on_hover(under, layout).len() == 0,
        under matches Some(id) ==> v.on_hover(under, layout) == (if v.interacting_window is None
            && v.windows.contains(id) && v.focused != Some(id) && is_visible(v, layout, id) {
            seq![Effect::FocusWindow { id, cause: FocusCause::Hover }]
        } else {
            Seq::empty()
        }),
{
    if let Some(id) = under {
        law_in_sight_is_visible(v, layout, id);
    }
}

/// A new window whose rule says so floats exactly where it is seen, on
/// the workspace that its monitor shows. Any other goes into the layout
/// of its monitor: to the workspace with the number that its rule gives,
/// or else to the one shown. What its rule and its size still ask for
/// comes after that.
pub proof fn law_new_windows_follow_their_rule(
    v: StateView,
    id: WindowId,
    device: String,
    rule: Option<WindowRule>,
    bounds: Option<Bounds>,
    layout: Layout,
    j: int,
    other: WindowId,
)
    requires
        is_known(layout, device@, j) || is_unknown(layout, device@),
    ensures
        ({
            let (w, effects) = v.on_placed(id, device, rule, bounds, layout);
            let floats = rule is Some && rule->0.open_floating && bounds is Some;
            let known = is_known(layout, device@, j);
            let fs = w.floating[id];
            &&& floats ==> {
                let b = bounds->0;
                &&& effects.len() == 0
                &&& w.floating.contains_key(id)
                &&& fs.device == device
                &&& fs.workspace_idx == (if known {
                    layout.monitors@[j].active_workspace_idx
                } else {
                    0
                })
                &&& fs.rect.x == b.x * SUBPIXEL
                &&& fs.rect.y == b.y * SUBPIXEL
                &&& fs.rect.w == b.w * SUBPIXEL
                &&& fs.rect.h == b.h * SUBPIXEL
                &&& other != id ==> w.floating.contains_key(other) == v.floating.contains_key(
                    other,
                )
                &&& other != id && v.floating.contains_key(other) ==> w.floating[other]
                    == v.floating[other]
            }
            &&& !floats ==> w == v && effects.len() == 2 && effects[1] == Effect::FinishPlacement(
                id,
            )
            &&& !floats && known && rule is Some && rule->0.open_workspace is Some ==> (
            effects[0] matches Effect::AddWindowToWorkspace { device: d, id: x, idx } && d == device
                && x == id && (rule->0.open_workspace->0 > 0 ==> idx == rule->0.open_workspace->0
                - 1) && (rule->0.open_workspace->0 == 0 ==> idx == 0))
            &&& !floats && (!known || rule is None || rule->0.open_workspace is None) ==> effects[0]
                == (Effect::AddWindow { device, id })
            &&& StateView { floating: v.floating, ..w } == v
        }),
{
    law_layouts_are_found_by_name(layout, device@, j);
    let w = v.on_placed(id, device, rule, bounds, layout).0;
    assert((StateView { floating: v.floating, ..w }) =~= v);
}

/// Once a new window is in the layout, its column is maximized if its
/// rule says so, and it is made the fullscreen window if its rule says
/// so, on the workspace and in the column where it is. A least size that
/// it has, in either direction, is handed on.
pub proof fn law_rules_apply_where_the_window_is(
    id: WindowId,
    device: String,
    rule: Option<WindowRule>,
    min: MinSize,
    layout: Layout,
    j: int,
    k: int,
    c: int,
    row: int,
)
    requires
        is_known(layout, device@, j) || is_unknown(layout, device@),
    ensures
        ({
            let m = layout.monitors@[j];
            let known = is_known(layout, device@, j);
            let effects = placement_effects(id, device, rule, min, layout);
            let least = min.w > 0 || min.h > 0;
            let at = known && is_first_on(m, id, k) && is_spot(m.workspaces@[k], id, c, row);
            let maximized = rule is Some && rule->0.open_maximized;
            let fullscreen = rule is Some && rule->0.open_fullscreen;
            let n = (if maximized {
                1int
            } else {
                0
            }) + (if fullscreen {
                1int
            } else {
                0
            });
            &&& at ==> effects.len() == n + (if least {
                1int
            } else {
                0
            })
            &&& at && maximized ==> (effects[0] matches Effect::MaximizeColumn {
                device: d,
                workspace,
                column,
            } && d == device && workspace == k && column == c)
            &&& at && fullscreen ==> (effects[n - 1] matches Effect::SetFullscreen {
                device: d,
                workspace,
                id: x,
            } && d == device && workspace == k && x == id)
            &&& least ==> effects[effects.len() - 1] == (Effect::SetMinSize {
                id,
                w: min.w,
                h: min.h,
            })
            &&& (!known || !lives_on(m, id) || rule is None) ==> effects.len() == (if least {
                1int
            } else {
                0
            })
        }),
{
    let m = layout.monitors@[j];
    law_layouts_are_found_by_name(layout, device@, j);
    law_windows_are_found_on_a_monitor(m, id, k);
    if is_first_on(m, id, k) {
        law_windows_are_found_on_a_workspace(m.workspaces@[k], id, c, row);
        assert(m.workspaces.len() <= usize::MAX);
        assert(m.workspaces@[k].columns.len() <= usize::MAX);
    }
}

/// Workspaces are numbered from one; the number zero counts as one.
pub proof fn law_workspaces_count_from_one(n: u32)
    ensures
        n > 0 ==> index_of(n) + 1 == n,
        index_of(0) == 0,
{
}

/// Windows found at startup are all tracked, each with the place where
/// it was found last; no other window becomes tracked, and nothing else
/// changes. Each is placed, in order, and all are tiled once at the end.
pub proof fn law_found_windows_are_adopted(
    v: StateView,
    found: Seq<Found>,
    i: int,
    id: WindowId,
)
    ensures
        ({
            let w = v.adopted(found);
            &&& 0 <= i < found.len() && (forall|k: int|
                i < k < found.len() ==> (#[trigger] found[k]).id != found[i].id)
                ==> w.original_rects.contains_key(found[i].id) && w.original_rects[found[i].id]
                == found[i].rect
            &&& w.windows.contains(id) <==> v.windows.contains(id) || exists|k: int|
                0 <= k < found.len() && (#[trigger] found[k]).id == id
            &&& (forall|k: int| 0 <= k < found.len() ==> (#[trigger] found[k]).id != id) ==> {
                &&& w.original_rects.contains_key(id) == v.original_rects.contains_key(id)
                &&& v.original_rects.contains_key(id) ==> w.original_rects[id]
                    == v.original_rects[id]
            }
            &&& StateView { windows: v.windows, original_rects: v.original_rects, ..w } == v
        }),
        place_found(found).len() == found.len(),
        0 <= i < found.len() ==> place_found(found)[i] == Effect::PlaceWindow(found[i].id),
    decreases found.len(),
{
    let w = v.adopted(found);
    if found.len() > 0 {
        let n = found.len() - 1;
        let t = found.drop_last();
        law_found_windows_are_adopted(v, t, i, id);
        assert forall|k: int| 0 <= k < n implies #[trigger] found[k] == t[k] by {}
        if exists|k: int| 0 <= k < t.len() && (#[trigger] t[k]).id == id {
            let k = choose|k: int| 0 <= k < t.len() && (#[trigger] t[k]).id == id;
            assert(found[k].id == id);
        }
        if found.last().id == id {
            assert(found[n].id == id);
        }
        if exists|k: int| 0 <= k < found.len() && (#[trigger] found[k]).id == id {
            let k = choose|k: int| 0 <= k < found.len() && (#[trigger] found[k]).id == id;
            if k < n {
                assert(t[k].id == id);
            }
        }
        if 0 <= i < n && (forall|k: int|
            i < k < found.len() ==> (#[trigger] found[k]).id != found[i].id) {
            assert(found[n].id != found[i].id);
            assert forall|k: int| i < k < t.len() implies (#[trigger] t[k]).id != t[i].id by {
                assert(found[k].id != found[i].id);
            }
        }
        if forall|k: int| 0 <= k < found.len() ==> (#[trigger] found[k]).id != id {
            assert(found[n].id != id);
            assert forall|k: int| 0 <= k < t.len() implies (#[trigger] t[k]).id != id by {
                assert(found[k].id != id);
            }
        }
    }
    assert((StateView { windows: v.windows, original_rects: v.original_rects, ..w }) =~= v);
}

spec fn restores(v: StateView, id: WindowId, e: Effect) -> bool {
    ||| v.borderless.contains_key(id) && e == (Effect::RestoreBorders {
        id,
        removed: v.borderless[id],
    })
    ||| e == (Effect::RestoreBounds { id, bounds: v.original_rects[id].bounds_of() })
    ||| e == Effect::Show(id)
}

proof fn lemma_restore(v: StateView, order: Seq<WindowId>, alive: Set<WindowId>, e: Effect)
    ensures
        v.restore_all_effects(order, alive).contains(e) <==> exists|k: int|
            0 <= k < order.len() && alive.contains(#[trigger] order[k]) && restores(
                v,
                order[k],
                e,
            ),
    decreases order.len(),
{
    if order.len() > 0 {
        let n = order.len() - 1;
        let t = order.drop_last();
        let id = order.last();
        lemma_restore(v, t, alive, e);
        let more = v.restore_effects(id);
        lemma_joined(v.restore_all_effects(t, alive), more, e);
        assert(more.contains(e) <==> restores(v, id, e)) by {
            let b = v.border_effects(id).len() as int;
            assert(more[b] == (Effect::RestoreBounds {
                id,
                bounds: v.original_rects[id].bounds_of(),
            }));
            assert(more[b + 1] == Effect::Show(id));
            if v.borderless.contains_key(id) {
                assert(more[0] == (Effect::RestoreBorders { id, removed: v.borderless[id] }));
            }
            if more.contains(e) {
                let k = more.index_of(e);
                assert(k == 0 || k == 1 || k == 2);
            }
        }
        if exists|k: int|
            0 <= k < t.len() && alive.contains(#[trigger] t[k]) && restores(v, t[k], e) {
            let k = choose|k: int|
                0 <= k < t.len() && alive.contains(#[trigger] t[k]) && restores(v, t[k], e);
            assert(order[k] == t[k]);
        }
        if alive.contains(id) && more.contains(e) {
            assert(alive.contains(order[n]) && restores(v, order[n], e));
        }
        if exists|k: int|
            0 <= k < order.len() && alive.contains(#[trigger] order[k]) && restores(
                v,
                order[k],
                e,
            ) {
            let k = choose|k: int|
                0 <= k < order.len() && alive.contains(#[trigger] order[k]) && restores(
                    v,
                    order[k],
                    e,
                );
            if k < n {
                assert(t[k] == order[k]);
            }
        }
    }
}

/// On the way out a window is put back to a place exactly when it is
/// alive and that is the place on record for it, edge by edge; it is
/// shown exactly then, and gets decorations back exactly when it lost
/// those. Dead windows are passed over and forgotten.
pub proof fn law_restoring_is_exact(
    v: StateView,
    order: Seq<WindowId>,
    alive: Set<WindowId>,
    id: WindowId,
    bounds: Bounds,
    removed: u32,
)
    requires
        lists(order, v.original_rects.dom()),
        v.original_rects.contains_key(id) && alive.contains(id) ==> v.original_rects[id].sane(),
    ensures
        ({
            let effects = v.restore_all_effects(order, alive);
            let w = v.restored(alive);
            let back = v.original_rects.contains_key(id) && alive.contains(id);
            let r = v.original_rects[id];
            &&& effects.contains(Effect::RestoreBounds { id, bounds }) <==> back && bounds.x
                == r.left && bounds.y == r.top && bounds.x + bounds.w == r.right && bounds.y
                + bounds.h == r.bottom
            &&& effects.contains(Effect::Show(id)) <==> back
            &&& effects.contains(Effect::RestoreBorders { id, removed }) <==> back
                && v.borderless.contains_key(id) && removed == v.borderless[id]
            &&& w.original_rects.contains_key(id) <==> back
            &&& back ==> w.original_rects[id] == r
            &&& w.borderless.contains_key(id) <==> v.borderless.contains_key(id) && !back
            &&& w.borderless.contains_key(id) ==> w.borderless[id] == v.borderless[id]
            &&& StateView {
                original_rects: v.original_rects,
                borderless: v.borderless,
                ..w
            } == v
        }),
{
    let a = Effect::RestoreBounds { id, bounds };
    let b = Effect::Show(id);
    let c = Effect::RestoreBorders { id, removed };
    lemma_restore(v, order, alive, a);
    lemma_restore(v, order, alive, b);
    lemma_restore(v, order, alive, c);
    assert(order.to_set().contains(id) <==> v.original_rects.dom().contains(id));
    if v.original_rects.contains_key(id) {
        let k = order.index_of(id);
        assert(order[k] == id);
    }
    let w = v.restored(alive);
    assert((StateView { original_rects: v.original_rects, borderless: v.borderless, ..w }) =~= v);
}

proof fn lemma_restores_join(
    v: StateView,
    a: Seq<WindowId>,
    b: Seq<WindowId>,
    alive: Set<WindowId>,
)
    ensures
        v.restore_all_effects(a + b, alive) == v.restore_all_effects(a, alive)
            + v.restore_all_effects(b, alive),
    decreases b.len(),
{
    if b.len() == 0 {
        assert(a + b =~= a);
        assert(v.restore_all_effects(a + b, alive) =~= v.restore_all_effects(a, alive)
            + v.restore_all_effects(b, alive));
    } else {
        lemma_restores_join(v, a, b.drop_last(), alive);
        assert((a + b).drop_last() =~= a + b.drop_last());
        assert(v.restore_all_effects(a + b, alive) =~= v.restore_all_effects(a, alive)
            + v.restore_all_effects(b, alive));
    }
}

/// Windows are restored one by one: a living one first gets its
/// decorations back, then its place, and is shown last. All can be
/// restored exactly when the place of every living one has a size that
/// 32 bits hold.
pub proof fn law_windows_are_restored_in_order(
    v: StateView,
    a: Seq<WindowId>,
    b: Seq<WindowId>,
    alive: Set<WindowId>,
    id: WindowId,
)
    ensures
        v.restore_all_effects(a + b, alive) == v.restore_all_effects(a, alive)
            + v.restore_all_effects(b, alive),
        !alive.contains(id) ==> v.restore_all_effects(seq![id], alive).len() == 0,
        alive.contains(id) ==> {
            let effects = v.restore_all_effects(seq![id], alive);
            let place = Effect::RestoreBounds { id, bounds: v.original_rects[id].bounds_of() };
            &&& v.borderless.contains_key(id) ==> effects == seq![
                Effect::RestoreBorders { id, removed: v.borderless[id] },
                place,
                Effect::Show(id),
            ]
            &&& !v.borderless.contains_key(id) ==> effects == seq![place, Effect::Show(id)]
        },
        v.restorable(alive) <==> forall|x: WindowId| #[trigger]
            v.original_rects.contains_key(x) ==> alive.contains(x) ==> v.original_rects[x].sane(),
{
    lemma_restores_join(v, a, b, alive);
    let one = seq![id];
    assert(one.drop_last() =~= Seq::<WindowId>::empty());
    let none = v.restore_all_effects(one.drop_last(), alive);
    assert(none =~= Seq::<Effect>::empty());
    let effects = v.restore_all_effects(one, alive);
    let place = Effect::RestoreBounds { id, bounds: v.original_rects[id].bounds_of() };
    if alive.contains(id) {
        if v.borderless.contains_key(id) {
            assert(effects =~= seq![
                Effect::RestoreBorders { id, removed: v.borderless[id] },
                place,
                Effect::Show(id),
            ]);
        } else {
            assert(effects =~= seq![place, Effect::Show(id)]);
        }
    }
}

/// The program's own surfaces are taken down exactly if they are there,
/// the overlay first.
pub proof fn law_own_surfaces_are_taken_down(v: StateView)
    ensures
        v.surface_effects() == match (v.has_overlay, v.has_focus_border) {
            (true, true) => seq![Effect::DropOverlay, Effect::DropFocusBorder],
            (true, false) => seq![Effect::DropOverlay],
            (false, true) => seq![Effect::DropFocusBorder],
            (false, false) => Seq::empty(),
        },
{
    let e = v.surface_effects();
    match (v.has_overlay, v.has_focus_border) {
        (true, true) => {
            assert(e =~= seq![Effect::DropOverlay, Effect::DropFocusBorder]);
        },
        (true, false) => {
            assert(e =~= seq![Effect::DropOverlay]);
        },
        (false, true) => {
            assert(e =~= seq![Effect::DropFocusBorder]);
        },
        (false, false) => {
            assert(e =~= Seq::<Effect>::empty());
        },
    }
}

} // verus!

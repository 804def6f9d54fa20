//! Whose focus it is, what the view and the ring do about it, and what
//! input leads to.

use crate::effect::Effect;
use crate::focus::{
    exit_effects, leave_overviews, ring_place, swapped, view_effects, viewable, MouseEvent,
    MouseKind, MouseStep, RingSight, RingUpdate,
};
use crate::geometry::{Bounds, Monitor, WindowId};
use crate::laws::lookup::{
    is_called, is_first_on, is_home, is_homeless, is_known, is_unknown,
    law_layouts_are_found_by_name, law_monitors_are_found_by_name,
    law_windows_are_found_in_the_layout, law_windows_are_found_on_a_monitor, lives_on, none_called,
};
use crate::laws::windows::{is_visible, law_in_sight_is_visible};
use crate::layout::{Layout, MonitorLayout};
use crate::search::{lemma_first_is, lemma_first_none};
use crate::state::StateView;
use vstd::prelude::*;

verus! {

/// The view that follows a window is that of the workspace it is on, on
/// the first monitor that has the window and that is known; it is as
/// wide as that monitor's work area.
pub proof fn law_view_follows_the_window(
    id: WindowId,
    monitors: Seq<Monitor>,
    layout: Layout,
    i: int,
    m: int,
    k: int,
)
    requires
        0 <= i < layout.monitors@.len(),
        is_first_on(layout.monitors@[i], id, k),
        is_called(monitors, layout.monitors@[i].device@, m),
        forall|j: int|
            0 <= j < i ==> !lives_on(#[trigger] layout.monitors@[j], id) || none_called(
                monitors,
                layout.monitors@[j].device@,
            ),
    ensures
        view_effects(id, monitors, layout).len() == 1,
        view_effects(id, monitors, layout)[0] matches Effect::RefreshView {
            device,
            workspace,
            view_width,
        } && device == layout.monitors@[i].device && workspace == k && view_width
            == monitors[m].work.right - monitors[m].work.left,
{
    let s = layout.monitors@;
    let p = viewable(id, monitors);
    law_windows_are_found_on_a_monitor(s[i], id, k);
    law_monitors_are_found_by_name(monitors, s[i].device@, m);
    assert forall|j: int| 0 <= j < i implies !p(#[trigger] s[j]) by {
        law_windows_are_found_on_a_monitor(s[j], id, 0);
        law_monitors_are_found_by_name(monitors, s[j].device@, 0);
    }
    lemma_first_is(s, p, i);
    assert(s[i].workspaces.len() <= usize::MAX);
}

/// No view follows a window that is on no known monitor.
pub proof fn law_no_view_follows_strangers(
    id: WindowId,
    monitors: Seq<Monitor>,
    layout: Layout,
)
    requires
        forall|j: int|
            0 <= j < layout.monitors@.len() ==> !lives_on(#[trigger] layout.monitors@[j], id)
                || none_called(monitors, layout.monitors@[j].device@),
    ensures
        view_effects(id, monitors, layout).len() == 0,
{
    let s = layout.monitors@;
    let p = viewable(id, monitors);
    assert forall|j: int| 0 <= j < s.len() implies !p(#[trigger] s[j]) by {
        law_windows_are_found_on_a_monitor(s[j], id, 0);
        law_monitors_are_found_by_name(monitors, s[j].device@, 0);
    }
    lemma_first_none(s, p);
}

/// The monitor shows its workspace as an overview.
pub open spec fn shows_overview(m: MonitorLayout) -> bool {
    m.workspaces@[m.active_workspace_idx as int].is_overview
}

proof fn lemma_exits_join(a: Seq<MonitorLayout>, b: Seq<MonitorLayout>)
    ensures
        exit_effects(a + b) == exit_effects(a) + exit_effects(b),
    decreases b.len(),
{
    if b.len() == 0 {
        assert(a + b =~= a);
        assert(exit_effects(a + b) =~= exit_effects(a) + exit_effects(b));
    } else {
        lemma_exits_join(a, b.drop_last());
        assert((a + b).drop_last() =~= a + b.drop_last());
        assert(exit_effects(a + b) =~= exit_effects(a) + exit_effects(b));
    }
}

/// Overviews are left monitor by monitor, in order, and exactly where
/// there is one. After that all is tiled; without any, nothing happens.
pub proof fn law_overviews_are_left_in_order(
    a: Seq<MonitorLayout>,
    b: Seq<MonitorLayout>,
    m: MonitorLayout,
    layout: Layout,
    i: int,
)
    ensures
        exit_effects(a + b) == exit_effects(a) + exit_effects(b),
        exit_effects(seq![m]) == (if shows_overview(m) {
            seq![Effect::ExitOverview(m.device)]
        } else {
            Seq::empty()
        }),
        0 <= i < layout.monitors@.len() && shows_overview(layout.monitors@[i]) ==> {
            &&& layout.any_overview()
            &&& leave_overviews(layout) == exit_effects(layout.monitors@).push(Effect::Reflow)
        },
        (forall|k: int|
            0 <= k < layout.monitors@.len() ==> !shows_overview(#[trigger] layout.monitors@[k]))
            ==> !layout.any_overview() && leave_overviews(layout).len() == 0,
{
    lemma_exits_join(a, b);
    let one = seq![m];
    assert(one.drop_last() =~= Seq::<MonitorLayout>::empty());
    assert(exit_effects(one.drop_last()) =~= Seq::<Effect>::empty());
    assert(exit_effects(one) =~= (if shows_overview(m) {
        seq![Effect::ExitOverview(m.device)]
    } else {
        Seq::empty()
    }));
    let s = layout.monitors@;
    if 0 <= i < s.len() && shows_overview(s[i]) {
        assert(s[i].active().is_overview);
    }
    if layout.any_overview() {
        let k = choose|k: int| 0 <= k < s.len() && (#[trigger] s[k]).active().is_overview;
        assert(shows_overview(s[k]));
    }
}

/// The window that the system is told to focus: the one that the layout
/// focuses on the workspace shown, on the monitor of the focused window,
/// or, where no monitor has that or none is focused, on the monitor
/// under the pointer.
pub proof fn law_the_system_focuses_what_the_layout_does(
    v: StateView,
    cursor: Option<String>,
    layout: Layout,
    device: Seq<char>,
    j: int,
)
    requires
        ({
            ||| exists|i: int|
                v.focused is Some && #[trigger] is_home(layout, v.focused->0, i) && device
                    == layout.monitors@[i].device@
            ||| (v.focused is Some ==> is_homeless(layout, v.focused->0)) && cursor is Some
                && cursor->0@ == device
        }),
    ensures
        is_known(layout, device, j) ==> {
            let m = layout.monitors@[j];
            v.focus_target(cursor, layout) == m.workspaces@[m.active_workspace_idx as int].focused
        },
        is_unknown(layout, device) ==> v.focus_target(cursor, layout) is None,
{
    law_layouts_are_found_by_name(layout, device, j);
    if let Some(id) = v.focused {
        law_windows_are_found_in_the_layout(layout, id, 0);
        if exists|i: int| is_home(layout, id, i) {
            let i = choose|i: int|
                #[trigger] is_home(layout, id, i) && (is_homeless(layout, id) || device
                    == layout.monitors@[i].device@);
            law_windows_are_found_in_the_layout(layout, id, i);
        }
    }
}

/// Without a window that some monitor has, and without a pointer on any
/// monitor, the system is told nothing.
pub proof fn law_the_system_is_told_nothing_unfounded(
    v: StateView,
    layout: Layout,
)
    requires
        v.focused is Some ==> is_homeless(layout, v.focused->0),
    ensures
        v.focus_target(None, layout) is None,
{
    if let Some(id) = v.focused {
        law_windows_are_found_in_the_layout(layout, id, 0);
    }
}

/// The ring belongs to the foreground window. Where there is none, it
/// belongs to the focus of the workspace shown on the monitor under the
/// pointer, and where the pointer is on none, on the first monitor.
pub proof fn law_whose_ring_it_is(
    v: StateView,
    cursor: Option<String>,
    layout: Layout,
    device: Seq<char>,
    j: int,
)
    ensures
        v.focused is Some ==> v.ring_target(cursor, layout) == v.focused,
        ({
            let m = layout.monitors@[j];
            let there = {
                ||| cursor is Some && cursor->0@ == device
                ||| cursor is None && v.monitors.len() > 0 && v.monitors[0].device@ == device
            };
            &&& v.focused is None && there && is_known(layout, device, j) ==> v.ring_target(
                cursor,
                layout,
            ) == m.workspaces@[m.active_workspace_idx as int].focused
            &&& v.focused is None && there && is_unknown(layout, device) ==> v.ring_target(
                cursor,
                layout,
            ) is None
        }),
        v.focused is None && cursor is None && v.monitors.len() == 0 ==> v.ring_target(
            cursor,
            layout,
        ) is None,
{
    law_layouts_are_found_by_name(layout, device, j);
}

/// The ring shows exactly when it is there and wanted, management does
/// not rest, and the window it belongs to lives, is visible, and can be
/// located. It is put around that place, in the look that was set, with
/// the colour's channels swapped.
pub proof fn law_when_the_ring_shows(
    v: StateView,
    cursor: Option<String>,
    layout: Layout,
    sight: RingSight,
)
    ensures
        ({
            let update = v.ring(cursor, layout, sight);
            let target = v.ring_target(cursor, layout);
            let place = ring_place(sight);
            let look = v.settings.ring;
            let shows = v.has_focus_border && look.enabled && v.interacting_window is None
                && !v.suspended && target is Some && is_visible(v, layout, target->0)
                && sight.alive && place is Some;
            &&& update is Absent <==> !v.has_focus_border
            &&& update is Around <==> shows
            &&& shows ==> update == (RingUpdate::Around {
                x: place->0.x,
                y: place->0.y,
                w: place->0.w,
                h: place->0.h,
                width: look.width,
                radius: look.radius,
                color: swapped(look.active_color),
            })
        }),
{
    if let Some(id) = v.ring_target(cursor, layout) {
        law_in_sight_is_visible(v, layout, id);
    }
}

/// The coordinates that stay far from the ends of 32 bits.
pub open spec fn moderate(b: Bounds) -> bool {
    &&& -0x1000_0000 <= b.x <= 0x1000_0000
    &&& -0x1000_0000 <= b.y <= 0x1000_0000
    &&& -0x1000_0000 <= b.w <= 0x1000_0000
    &&& -0x1000_0000 <= b.h <= 0x1000_0000
}

/// The ring hugs the visible frame. While the window is animated, the
/// ring has the same distances from the animated rectangle, on each
/// side, as the frame has from the window's own.
pub proof fn law_ring_hugs_the_frame(sight: RingSight)
    ensures
        sight.in_flight is None || sight.window is None || sight.frame is None ==> ring_place(sight)
            == sight.frame,
        sight.in_flight is Some && sight.window is Some && sight.frame is Some && moderate(
            sight.in_flight->0,
        ) && moderate(sight.window->0) && moderate(sight.frame->0) ==> {
            let a = sight.in_flight->0;
            let w = sight.window->0;
            let f = sight.frame->0;
            let r = ring_place(sight)->0;
            &&& ring_place(sight) is Some
            &&& r.x - a.x == f.x - w.x
            &&& r.y - a.y == f.y - w.y
            &&& (a.x + a.w) - (r.x + r.w) == (w.x + w.w) - (f.x + f.w)
            &&& (a.y + a.h) - (r.y + r.h) == (w.y + w.h) - (f.y + f.h)
        },
{
}

/// The red and blue channels change places, green stays, and nothing is
/// above them.
pub proof fn law_channels_are_swapped(rgb: u32)
    ensures
        swapped(rgb) % 0x100 == rgb / 0x1_0000 % 0x100,
        swapped(rgb) / 0x100 % 0x100 == rgb / 0x100 % 0x100,
        swapped(rgb) / 0x1_0000 == rgb % 0x100,
        rgb < 0x100_0000 ==> swapped(swapped(rgb)) == rgb,
{
}

/// Wheel movements act as the keys they stand for, with the modifiers
/// held; moves hover where that is wanted. During a screen transition
/// neither does anything.
pub proof fn law_what_the_mouse_does(v: StateView, ev: MouseEvent)
    ensures
        v.suspended ==> v.mouse_step(ev) == MouseStep::Ignore,
        !v.suspended && ev.kind == MouseKind::Move ==> v.mouse_step(ev) == (
        if v.settings.focus_follows_mouse {
            MouseStep::Hover { x: ev.x, y: ev.y }
        } else {
            MouseStep::Ignore
        }),
        !v.suspended && ev.kind != MouseKind::Move && ev.wheel_vk is None ==> v.mouse_step(ev)
            == MouseStep::Ignore,
        !v.suspended && ev.kind != MouseKind::Move && ev.wheel_vk is Some ==> (v.mouse_step(
            ev,
        ) matches MouseStep::Key(key) && key.vk == ev.wheel_vk->0 && key.pressed && key.shift
            == ev.shift && key.ctrl == ev.ctrl && key.mod_held == ev.mod_held),
{
}

} // verus!

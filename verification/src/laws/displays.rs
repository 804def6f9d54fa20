//! What a change of the display topology does.

use crate::display::{
    adopt_monitors, display_effects, gone_effects, present, refuge, rehome_effects,
};
use crate::effect::Effect;
use crate::floating::{has_room, kept_in_reach};
use crate::geometry::{Monitor, WindowId};
use crate::laws::lookup::{
    is_called, is_known, is_unknown, law_layouts_are_found_by_name,
    law_monitors_are_found_by_name, none_called,
};
use crate::laws::tiling::lemma_joined;
use crate::layout::{workspace_ids, Layout};
use crate::search::{lemma_first_is, lemma_first_none};
use crate::state::StateView;
use vstd::prelude::*;

verus! {

/// Monitor `r` is the one that windows of a gone monitor are taken to:
/// the first of the layout's that is there, or, where none is, the
/// first.
pub open spec fn is_refuge(monitors: Seq<Monitor>, layout: Layout, r: int) -> bool {
    ||| exists|i: int| #[trigger] is_first_present(monitors, layout, i) && is_called(
        monitors,
        layout.monitors@[i].device@,
        r,
    )
    ||| r == 0 && forall|i: int|
        0 <= i < layout.monitors@.len() ==> none_called(
            monitors,
            (#[trigger] layout.monitors@[i]).device@,
        )
}

/// Monitor `i` of the layout is there, and no earlier one is.
pub open spec fn is_first_present(monitors: Seq<Monitor>, layout: Layout, i: int) -> bool {
    &&& 0 <= i < layout.monitors@.len()
    &&& !none_called(monitors, layout.monitors@[i].device@)
    &&& forall|k: int|
        0 <= k < i ==> none_called(monitors, (#[trigger] layout.monitors@[k]).device@)
}

/// The monitor that takes windows in is the first of the layout's that
/// is there, or the first.
pub proof fn law_refuge_is_the_first_there(monitors: Seq<Monitor>, layout: Layout, r: int)
    requires
        is_refuge(monitors, layout, r),
    ensures
        refuge(monitors, layout) == r,
{
    let s = layout.monitors@;
    let p = present(monitors);
    assert forall|k: int| 0 <= k < s.len() implies p(#[trigger] s[k]) == !none_called(
        monitors,
        s[k].device@,
    ) by {
        law_monitors_are_found_by_name(monitors, s[k].device@, 0);
    }
    if exists|i: int| #[trigger] is_first_present(monitors, layout, i) && is_called(
        monitors,
        s[i].device@,
        r,
    ) {
        let i = choose|i: int| #[trigger] is_first_present(monitors, layout, i) && is_called(
            monitors,
            s[i].device@,
            r,
        );
        assert forall|k: int| 0 <= k < i implies !p(#[trigger] s[k]) by {
            assert(none_called(monitors, s[k].device@));
        }
        lemma_first_is(s, p, i);
        law_monitors_are_found_by_name(monitors, s[i].device@, r);
    } else {
        assert forall|k: int| 0 <= k < s.len() implies !p(#[trigger] s[k]) by {
            assert(none_called(monitors, s[k].device@));
        }
        lemma_first_none(s, p);
    }
}

proof fn lemma_gone(before: Seq<Monitor>, now: Seq<Monitor>, device: String)
    ensures
        gone_effects(before, now).contains(Effect::RehomeWindows(device)) <==> exists|i: int|
            0 <= i < before.len() && (#[trigger] before[i]).device == device && none_called(
                now,
                device@,
            ),
        forall|k: int|
            0 <= k < gone_effects(before, now).len() ==> (#[trigger] gone_effects(
                before,
                now,
            )[k]) is RehomeWindows,
    decreases before.len(),
{
    if before.len() > 0 {
        let n = before.len() - 1;
        let t = before.drop_last();
        lemma_gone(t, now, device);
        let sofar = gone_effects(t, now);
        let all = gone_effects(before, now);
        let e = Effect::RehomeWindows(before.last().device);
        law_monitors_are_found_by_name(now, before.last().device@, 0);
        if none_called(now, before.last().device@) {
            assert(all =~= sofar + seq![e]);
            lemma_joined(sofar, seq![e], Effect::RehomeWindows(device));
            assert(seq![e][0] == e);
            assert(before[n].device == before.last().device);
        }
        if exists|i: int|
            0 <= i < t.len() && (#[trigger] t[i]).device == device && none_called(now, device@) {
            let i = choose|i: int|
                0 <= i < t.len() && (#[trigger] t[i]).device == device && none_called(now, device@);
            assert(before[i] == t[i]);
        }
        if exists|i: int|
            0 <= i < before.len() && (#[trigger] before[i]).device == device && none_called(
                now,
                device@,
            ) {
            let i = choose|i: int|
                0 <= i < before.len() && (#[trigger] before[i]).device == device && none_called(
                    now,
                    device@,
                );
            if i < n {
                assert(t[i] == before[i]);
            }
        }
    }
}

/// A change of the topology makes every monitor that is there known to
/// the layout, in order; then it rehomes the windows of exactly those
/// that were there and are not; then all is tiled.
pub proof fn law_topology_changes_in_order(
    before: Seq<Monitor>,
    now: Seq<Monitor>,
    k: int,
    device: String,
)
    ensures
        ({
            let effects = display_effects(before, now);
            let n = effects.len() - 1;
            &&& n >= now.len()
            &&& 0 <= k < now.len() ==> effects[k] == Effect::AddMonitor(now[k].device)
            &&& now.len() <= k < n ==> effects[k] is RehomeWindows
            &&& effects[n] == Effect::Reflow
            &&& effects.contains(Effect::RehomeWindows(device)) <==> exists|i: int|
                0 <= i < before.len() && (#[trigger] before[i]).device == device && none_called(
                    now,
                    device@,
                )
        }),
{
    let effects = display_effects(before, now);
    let a = adopt_monitors(now);
    let g = gone_effects(before, now);
    lemma_gone(before, now, device);
    let e = Effect::RehomeWindows(device);
    assert(effects =~= a + g + seq![Effect::Reflow]);
    lemma_joined(a + g, seq![Effect::Reflow], e);
    lemma_joined(a, g, e);
    assert(!a.contains(e));
    if now.len() <= k < effects.len() - 1 {
        assert(effects[k] == g[k - now.len()]);
    }
}

/// The windows of a monitor that is gone are taken, each once and in
/// order, to the monitor that takes them in, after their own layout is
/// gone. Without any monitor they stay; a monitor that the layout does
/// not know has none.
pub proof fn law_windows_are_rehomed_in_order(
    device: String,
    monitors: Seq<Monitor>,
    layout: Layout,
    j: int,
    r: int,
    k: int,
)
    ensures
        ({
            let effects = rehome_effects(device, monitors, layout);
            let ids = workspace_ids(layout.monitors@[j].workspaces@);
            &&& is_unknown(layout, device@) ==> effects.len() == 0
            &&& is_known(layout, device@, j) ==> effects.len() > 0 && effects[0]
                == Effect::RemoveMonitor(device)
            &&& is_known(layout, device@, j) && monitors.len() == 0 ==> effects.len() == 1
            &&& is_known(layout, device@, j) && monitors.len() > 0 && is_refuge(
                monitors,
                layout,
                r,
            ) ==> {
                &&& effects.len() == ids.len() + 1
                &&& 0 <= k < ids.len() ==> effects[k + 1] == (Effect::AddWindow {
                    device: monitors[r].device,
                    id: ids[k],
                })
            }
        }),
{
    law_layouts_are_found_by_name(layout, device@, j);
    if is_refuge(monitors, layout, r) {
        law_refuge_is_the_first_there(monitors, layout, r);
    }
}

/// A change of the topology replaces the monitors. A float whose monitor
/// was there and is not goes to the monitor that takes windows in, to
/// the workspace shown there, and by the shortest way into reach where
/// there is room; it keeps its size. Any other float stays as it is, and
/// so does everything else.
pub proof fn law_floats_of_gone_monitors_are_taken_in(
    v: StateView,
    monitors: Seq<Monitor>,
    layout: Layout,
    id: WindowId,
    r: int,
    j: int,
)
    requires
        v.floating.contains_key(id),
    ensures
        ({
            let w = v.with_monitors(monitors, layout);
            let fs = v.floating[id];
            let now = w.floating[id];
            let gone = !none_called(v.monitors, fs.device@) && none_called(monitors, fs.device@);
            &&& w.monitors == monitors
            &&& w.floating.dom() == v.floating.dom()
            &&& !gone || monitors.len() == 0 ==> now == fs
            &&& gone && monitors.len() > 0 && is_refuge(monitors, layout, r) ==> {
                &&& now.device == monitors[r].device
                &&& is_known(layout, monitors[r].device@, j) ==> now.workspace_idx
                    == layout.monitors@[j].active_workspace_idx
                &&& is_unknown(layout, monitors[r].device@) ==> now.workspace_idx == 0
                &&& has_room(fs.rect, monitors[r].work) ==> now.rect == kept_in_reach(
                    fs.rect,
                    monitors[r].work,
                )
                &&& !has_room(fs.rect, monitors[r].work) ==> now.rect == fs.rect
            }
            &&& StateView { monitors: v.monitors, floating: v.floating, ..w } == v
        }),
{
    let fs = v.floating[id];
    let w = v.with_monitors(monitors, layout);
    law_monitors_are_found_by_name(v.monitors, fs.device@, 0);
    law_monitors_are_found_by_name(monitors, fs.device@, 0);
    if is_refuge(monitors, layout, r) {
        law_refuge_is_the_first_there(monitors, layout, r);
        law_layouts_are_found_by_name(layout, monitors[r].device@, j);
    }
    assert(w.floating.dom() =~= v.floating.dom());
    assert((StateView { monitors: v.monitors, floating: v.floating, ..w }) =~= v);
}

} // verus!

//! Changes of the display topology.

use crate::effect::Effect;
use crate::floating::{fits, has_room, keep_in_reach, kept_in_reach, FloatState};
use crate::geometry::{find_monitor, monitor_at, FloatRect, Monitor, WindowId};
use crate::layout::{Layout, MonitorLayout};
use crate::reflow::lemma_take_contains;
use crate::search::{first_where, lemma_first_is, lemma_first_none};
use crate::state::{AppState, StateView};
use vstd::prelude::*;

verus! {

broadcast use vstd::std_specs::hash::group_hash_axioms;

/// Take each window to this monitor.
pub open spec fn add_all(device: String, ids: Seq<WindowId>) -> Seq<Effect> {
    ids.map_values(|id: WindowId| Effect::AddWindow { device, id })
}

/// Rehome the windows of every monitor that is gone.
pub open spec fn gone_effects(before: Seq<Monitor>, now: Seq<Monitor>) -> Seq<Effect>
    decreases before.len(),
{
    if before.len() == 0 {
        Seq::empty()
    } else {
        let sofar = gone_effects(before.drop_last(), now);
        if monitor_at(now, before.last().device@) is None {
            sofar.push(Effect::RehomeWindows(before.last().device))
        } else {
            sofar
        }
    }
}

/// Make every monitor known to the layout.
pub open spec fn adopt_monitors(now: Seq<Monitor>) -> Seq<Effect> {
    now.map_values(|m: Monitor| Effect::AddMonitor(m.device))
}

/// What a change of the topology takes: the layout learns of every
/// monitor before windows are taken to one, and all is tiled anew.
pub open spec fn display_effects(before: Seq<Monitor>, now: Seq<Monitor>) -> Seq<Effect> {
    (adopt_monitors(now) + gone_effects(before, now)).push(Effect::Reflow)
}

/// Layouts of monitors that are there.
pub open spec fn present(monitors: Seq<Monitor>) -> spec_fn(MonitorLayout) -> bool {
    |m: MonitorLayout| monitor_at(monitors, m.device@) is Some
}

/// The monitor that windows of a gone one are taken to: the first of the
/// layout that is there, else the first.
pub open spec fn refuge(monitors: Seq<Monitor>, layout: Layout) -> int {
    match first_where(layout.monitors@, present(monitors)) {
        Some(i) => monitor_at(monitors, layout.monitors@[i].device@)->0,
        None => 0,
    }
}

/// A monitor's layout goes; its windows move to a monitor that is there.
pub open spec fn rehome_effects(device: String, monitors: Seq<Monitor>, layout: Layout) -> Seq<
    Effect,
> {
    match layout.at(device@) {
        Some(m) => seq![Effect::RemoveMonitor(device)] + (if monitors.len() > 0 {
            add_all(monitors[refuge(monitors, layout)].device, m.ids())
        } else {
            Seq::empty()
        }),
        None => Seq::empty(),
    }
}

/// The monitor of that name was there and is no longer.
pub open spec fn is_gone(before: Seq<Monitor>, monitors: Seq<Monitor>, device: Seq<char>) -> bool {
    monitor_at(before, device) is Some && monitor_at(monitors, device) is None
}

/// A float whose monitor is gone moves to the workspace shown on one
/// that is there, and into reach on it where it has room.
pub open spec fn rehomed_float(
    fs: FloatState,
    before: Seq<Monitor>,
    monitors: Seq<Monitor>,
    layout: Layout,
) -> FloatState {
    if monitors.len() > 0 && is_gone(before, monitors, fs.device@) {
        let m = monitors[refuge(monitors, layout)];
        FloatState {
            device: m.device,
            workspace_idx: match layout.active_on(m.device@) {
                Some(i) => i,
                None => 0,
            },
            rect: if has_room(fs.rect, m.work) {
                kept_in_reach(fs.rect, m.work)
            } else {
                fs.rect
            },
        }
    } else {
        fs
    }
}

impl StateView {
    /// The state once the topology has changed.
    pub open spec fn with_monitors(self, monitors: Seq<Monitor>, layout: Layout) -> StateView {
        StateView {
            monitors,
            floating: self.floating.map_values(
                |fs: FloatState| rehomed_float(fs, self.monitors, monitors, layout),
            ),
            ..self
        }
    }
}

fn find_refuge(monitors: &Vec<Monitor>, layout: &Layout) -> (j: usize)
    requires
        monitors@.len() > 0,
    ensures
        j == refuge(monitors@, *layout),
        j < monitors@.len(),
{
    let mut i: usize = 0;
    while i < layout.monitors.len()
        invariant
            i <= layout.monitors@.len(),
            forall|k: int| 0 <= k < i ==> !present(monitors@)(#[trigger] layout.monitors@[k]),
        decreases layout.monitors@.len() - i,
    {
        if let Some(j) = find_monitor(monitors, &layout.monitors[i].device) {
            proof {
                lemma_first_is(layout.monitors@, present(monitors@), i as int);
            }
            return j;
        }
        i = i + 1;
    }
    proof {
        lemma_first_none(layout.monitors@, present(monitors@));
    }
    0
}

fn rehome_float(
    fs: FloatState,
    before: &Vec<Monitor>,
    monitors: &Vec<Monitor>,
    layout: &Layout,
) -> (moved: FloatState)
    ensures
        moved == rehomed_float(fs, before@, monitors@, *layout),
{
    if monitors.len() == 0 || find_monitor(before, &fs.device).is_none() || find_monitor(
        monitors,
        &fs.device,
    ).is_some() {
        return fs;
    }
    let j: usize = find_refuge(monitors, layout);
    let device = monitors[j].device.clone();
    let workspace_idx: usize = match layout.active_idx(&device) {
        Some(i) => i,
        None => 0,
    };
    let rect: FloatRect = if fits(fs.rect, monitors[j].work) {
        keep_in_reach(fs.rect, monitors[j].work)
    } else {
        fs.rect
    };
    FloatState { device, workspace_idx, rect }
}

impl AppState {
    fn rehome_floats(&mut self, monitors: &Vec<Monitor>, layout: &Layout)
        ensures
            final(self)@ == (StateView {
                floating: old(self)@.floating.map_values(
                    |fs: FloatState|
                        rehomed_float(fs, old(self)@.monitors, monitors@, *layout),
                ),
                ..old(self)@
            }),
    {
        let ghost v = self@;
        let order = self.float_ids();
        let mut i: usize = 0;
        while i < order.len()
            invariant
                i <= order@.len(),
                order@.no_duplicates(),
                order@.to_set() == v.floating.dom(),
                self@ == (StateView { floating: self@.floating, ..v }),
                forall|id: WindowId| #[trigger]
                    self@.floating.contains_key(id) <==> v.floating.contains_key(id),
                forall|id: WindowId| #[trigger]
                    self@.floating.contains_key(id) ==> self@.floating[id] == (
                    if order@.take(i as int).contains(id) {
                        rehomed_float(v.floating[id], v.monitors, monitors@, *layout)
                    } else {
                        v.floating[id]
                    }),
            decreases order@.len() - i,
        {
            let id: WindowId = order[i];
            proof {
                lemma_take_contains(order@, i as int);
                assert(order@.to_set().contains(id));
                assert(v.floating.contains_key(id));
                assert(self@.floating.contains_key(id));
                if order@.take(i as int).contains(id) {
                    let k = order@.take(i as int).index_of(id);
                    assert(order@[k] == order@[i as int]);
                }
            }
            if let Some(fs) = self.floating.remove(&id) {
                let moved = rehome_float(fs, &self.monitors, monitors, layout);
                self.floating.insert(id, moved);
            }
            i = i + 1;
        }
        proof {
            assert(order@.take(i as int) =~= order@);
            assert forall|id: WindowId| v.floating.contains_key(id) implies order@.contains(
                id,
            ) by {
                assert(order@.to_set().contains(id));
            }
            assert(self@.floating =~= v.floating.map_values(
                |fs: FloatState| rehomed_float(fs, v.monitors, monitors@, *layout),
            ));
        }
    }

    /// The display topology changed: adopt the monitors that are there,
    /// rehome windows from those that are gone, re-tile.
    pub fn on_display_change(&mut self, monitors: Vec<Monitor>, layout: &Layout) -> (effects: Vec<
        Effect,
    >)
        ensures
            final(self)@ == old(self)@.with_monitors(monitors@, *layout),
            effects@ == display_effects(old(self)@.monitors, monitors@),
            old(self).wf() ==> final(self).wf(),
    {
        let mut effects: Vec<Effect> = Vec::new();
        let mut j: usize = 0;
        while j < monitors.len()
            invariant
                j <= monitors@.len(),
                effects@ =~= adopt_monitors(monitors@.take(j as int)),
            decreases monitors@.len() - j,
        {
            effects.push(Effect::AddMonitor(monitors[j].device.clone()));
            j = j + 1;
        }
        proof {
            assert(monitors@.take(j as int) =~= monitors@);
        }
        let mut i: usize = 0;
        while i < self.monitors.len()
            invariant
                i <= self.monitors@.len(),
                self@ == old(self)@,
                effects@ =~= adopt_monitors(monitors@) + gone_effects(
                    self.monitors@.take(i as int),
                    monitors@,
                ),
            decreases self.monitors@.len() - i,
        {
            proof {
                assert(self.monitors@.take(i + 1).drop_last() =~= self.monitors@.take(i as int));
            }
            if find_monitor(&monitors, &self.monitors[i].device).is_none() {
                effects.push(Effect::RehomeWindows(self.monitors[i].device.clone()));
            }
            i = i + 1;
        }
        proof {
            assert(self.monitors@.take(i as int) =~= self.monitors@);
        }
        self.rehome_floats(&monitors, layout);
        self.monitors = monitors;
        effects.push(Effect::Reflow);
        proof {
            assert(self@ =~= old(self)@.with_monitors(monitors@, *layout));
        }
        effects
    }

    /// A monitor is gone: take its windows to one that is there. Where
    /// none is, they stay in place.
    pub fn rehome_windows(&self, device: String, layout: &Layout) -> (effects: Vec<Effect>)
        ensures
            effects@ == rehome_effects(device, self@.monitors, *layout),
    {
        let mut effects: Vec<Effect> = Vec::new();
        if let Some(m) = layout.monitor(&device) {
            effects.push(Effect::RemoveMonitor(device));
            if self.monitors.len() > 0 {
                let j: usize = find_refuge(&self.monitors, layout);
                let ids = m.window_ids();
                let ghost before = effects@;
                let ghost target = self.monitors@[j as int].device;
                let mut k: usize = 0;
                while k < ids.len()
                    invariant
                        k <= ids@.len(),
                        j < self.monitors@.len(),
                        target == self.monitors@[j as int].device,
                        effects@ =~= before + add_all(target, ids@.take(k as int)),
                    decreases ids@.len() - k,
                {
                    effects.push(
                        Effect::AddWindow { device: self.monitors[j].device.clone(), id: ids[k] },
                    );
                    k = k + 1;
                }
                assert(ids@.take(k as int) =~= ids@);
            }
        }
        effects
    }
}

} // verus!

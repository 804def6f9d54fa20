//! Startup and shutdown: adopting the windows that are there, and
//! leaving the desktop as it was found.

use crate::effect::Effect;
use crate::geometry::{Rect, WindowId};
use crate::reflow::lemma_take_contains;
use crate::state::{lists, AppState, StateView};
use std::collections::HashSet;
use vstd::prelude::*;

verus! {

broadcast use vstd::std_specs::hash::group_hash_axioms;

/// A window that is there at startup.
#[derive(Debug, Clone, Copy, PartialEq, Eq, Structural)]
pub struct Found {
    pub id: WindowId,
    pub rect: Rect,
}

/// Place each window.
pub open spec fn place_found(found: Seq<Found>) -> Seq<Effect> {
    found.map_values(|w: Found| Effect::PlaceWindow(w.id))
}

impl StateView {
    /// The windows are tracked, and their places remembered.
    pub open spec fn adopted(self, found: Seq<Found>) -> StateView
        decreases found.len(),
    {
        if found.len() == 0 {
            self
        } else {
            let v = self.adopted(found.drop_last());
            StateView {
                windows: v.windows.insert(found.last().id),
                original_rects: v.original_rects.insert(found.last().id, found.last().rect),
                ..v
            }
        }
    }

    /// The size of every living window's original place is one that the
    /// window system takes.
    pub open spec fn restorable(self, alive: Set<WindowId>) -> bool {
        forall|id: WindowId| #[trigger]
            self.original_rects.contains_key(id) && alive.contains(id)
                ==> self.original_rects[id].sane()
    }

    /// What brings one window back to where and how it was found.
    pub open spec fn restore_effects(self, id: WindowId) -> Seq<Effect> {
        self.border_effects(id) + seq![
            Effect::RestoreBounds { id, bounds: self.original_rects[id].bounds_of() },
            Effect::Show(id),
        ]
    }

    /// What brings every window back that is alive.
    pub open spec fn restore_all_effects(self, order: Seq<WindowId>, alive: Set<WindowId>) -> Seq<
        Effect,
    >
        decreases order.len(),
    {
        if order.len() == 0 {
            Seq::empty()
        } else {
            let sofar = self.restore_all_effects(order.drop_last(), alive);
            if alive.contains(order.last()) {
                sofar + self.restore_effects(order.last())
            } else {
                sofar
            }
        }
    }

    /// The places of dead windows are forgotten, and no window that is
    /// alive lacks its decorations any more.
    pub open spec fn restored(self, alive: Set<WindowId>) -> StateView {
        StateView {
            original_rects: self.original_rects.restrict(alive),
            borderless: self.borderless.remove_keys(
                self.original_rects.dom().intersect(alive),
            ),
            ..self
        }
    }

    /// The program's own surfaces, to be destroyed on the way out.
    pub open spec fn surface_effects(self) -> Seq<Effect> {
        (if self.has_overlay {
            seq![Effect::DropOverlay]
        } else {
            Seq::empty()
        }) + (if self.has_focus_border {
            seq![Effect::DropFocusBorder]
        } else {
            Seq::empty()
        })
    }
}

impl AppState {
    /// Track the windows that are there at startup. They are placed by
    /// the same rules as windows that open later, and tiled once.
    pub fn adopt_existing(&mut self, found: &Vec<Found>) -> (effects: Vec<Effect>)
        requires
            old(self).wf(),
        ensures
            final(self).wf(),
            final(self)@ == old(self)@.adopted(found@),
            effects@ == place_found(found@).push(Effect::Reflow),
    {
        let mut effects: Vec<Effect> = Vec::new();
        let mut i: usize = 0;
        while i < found.len()
            invariant
                i <= found@.len(),
                self.wf(),
                self@ == old(self)@.adopted(found@.take(i as int)),
                effects@ =~= place_found(found@.take(i as int)),
            decreases found@.len() - i,
        {
            let w: Found = found[i];
            proof {
                assert(found@.take(i + 1).drop_last() =~= found@.take(i as int));
            }
            self.windows.insert(w.id);
            self.original_rects.insert(w.id, w.rect);
            effects.push(Effect::PlaceWindow(w.id));
            proof {
                assert(self@ =~= old(self)@.adopted(found@.take(i + 1)));
            }
            i = i + 1;
        }
        assert(found@.take(i as int) =~= found@);
        effects.push(Effect::Reflow);
        effects
    }

    /// Undo everything that was done to real windows: restore their
    /// decorations, their original place and their visibility. `order`
    /// lists the windows whose original place is known.
    pub fn restore_all(&mut self, order: &Vec<WindowId>, alive: &HashSet<WindowId>) -> (effects:
        Vec<Effect>)
        requires
            old(self).wf(),
            lists(order@, old(self)@.original_rects.dom()),
            old(self)@.restorable(alive@),
        ensures
            final(self).wf(),
            final(self)@ == old(self)@.restored(alive@),
            effects@ == old(self)@.restore_all_effects(order@, alive@),
    {
        let ghost v = self@;
        let mut effects: Vec<Effect> = Vec::new();
        let mut i: usize = 0;
        while i < order.len()
            invariant
                i <= order@.len(),
                v.wf(),
                v.restorable(alive@),
                lists(order@, v.original_rects.dom()),
                self@ == (StateView {
                    original_rects: self@.original_rects,
                    borderless: self@.borderless,
                    ..v
                }),
                forall|id: WindowId| #[trigger]
                    self@.original_rects.contains_key(id) <==> v.original_rects.contains_key(id)
                        && (alive@.contains(id) || !order@.take(i as int).contains(id)),
                forall|id: WindowId| #[trigger]
                    self@.original_rects.contains_key(id) ==> self@.original_rects[id]
                        == v.original_rects[id],
                forall|id: WindowId| #[trigger]
                    self@.borderless.contains_key(id) <==> v.borderless.contains_key(id) && !(
                    alive@.contains(id) && order@.take(i as int).contains(id)),
                forall|id: WindowId| #[trigger]
                    self@.borderless.contains_key(id) ==> self@.borderless[id] == v.borderless[id],
                effects@ == v.restore_all_effects(order@.take(i as int), alive@),
            decreases order@.len() - i,
        {
            let id: WindowId = order[i];
            proof {
                lemma_take_contains(order@, i as int);
                assert(order@.take(i + 1).drop_last() =~= order@.take(i as int));
                assert(order@.to_set().contains(id));
                assert(v.original_rects.contains_key(id));
                if order@.take(i as int).contains(id) {
                    let k = order@.take(i as int).index_of(id);
                    assert(order@[k] == order@[i as int]);
                }
                assert(self@.original_rects.contains_key(id));
            }
            if alive.contains(&id) {
                let mut borders = self.restore_borders(id);
                effects.append(&mut borders);
                if let Some(rc) = self.original_rects.get(&id) {
                    effects.push(Effect::RestoreBounds { id, bounds: rc.bounds() });
                }
                effects.push(Effect::Show(id));
                proof {
                    assert(effects@ =~= v.restore_all_effects(order@.take(i + 1), alive@));
                }
            } else {
                self.original_rects.remove(&id);
            }
            i = i + 1;
        }
        proof {
            assert(order@.take(i as int) =~= order@);
            assert forall|id: WindowId| v.original_rects.contains_key(id) <==> order@.contains(
                id,
            ) by {
                assert(order@.to_set().contains(id) <==> order@.contains(id));
            }
            assert(self@.original_rects =~= v.restored(alive@).original_rects);
            assert(self@.borderless =~= v.restored(alive@).borderless);
        }
        effects
    }

    /// The message loop ended: tear down in a fixed order. Input first,
    /// so that nothing changes the state any more; then the window
    /// events, so that the restoring is not tracked; then the program's
    /// own surfaces, so that they do not sit on the restored desktop;
    /// then the windows are restored.
    pub fn shut_down(&mut self) -> (effects: Vec<Effect>)
        ensures
            final(self)@ == (StateView {
                has_overlay: false,
                has_focus_border: false,
                ..old(self)@
            }),
            effects@ == seq![Effect::UninstallInput, Effect::DropEventHooks]
                + old(self)@.surface_effects() + seq![Effect::RestoreWindows],
            old(self).wf() ==> final(self).wf(),
    {
        let mut effects: Vec<Effect> = Vec::new();
        effects.push(Effect::UninstallInput);
        effects.push(Effect::DropEventHooks);
        if self.has_overlay {
            effects.push(Effect::DropOverlay);
            self.has_overlay = false;
        }
        if self.has_focus_border {
            effects.push(Effect::DropFocusBorder);
            self.has_focus_border = false;
        }
        effects.push(Effect::RestoreWindows);
        effects
    }
}

} // verus!

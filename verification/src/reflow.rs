//! Pushing the layout to the real windows: which are hidden, which are
//! shown, where each is sent.

use crate::effect::{
    push_raises, push_retires, push_shows, raise_all, retire_all, show_all, Effect,
};
use crate::geometry::{tile_ids, FloatRect, Monitor, Rect, TileRect, WindowId};
use crate::laws::tiling::{is_sent, law_reflow_sends_windows_to_their_places};
use crate::layout::{Layout, MonitorLayout, Workspace};
use crate::search::contains_id;
use crate::slide::{ids_of, part_ids, tiles_of};
use crate::state::{lists, AppState, StateView};
use vstd::prelude::*;

verus! {

broadcast use vstd::std_specs::hash::group_hash_axioms;

/// Windows outside the list.
pub open spec fn outside(ids: Seq<WindowId>) -> spec_fn(WindowId) -> bool {
    |id: WindowId| !ids.contains(id)
}

/// The windows of the workspaces other than the active one, less those
/// that take part in a slide.
pub open spec fn inactive_ids(
    workspaces: Seq<Workspace>,
    active: int,
    sliding: Seq<WindowId>,
) -> Seq<WindowId>
    decreases workspaces.len(),
{
    if workspaces.len() == 0 {
        Seq::empty()
    } else {
        let sofar = inactive_ids(workspaces.drop_last(), active, sliding);
        if workspaces.len() - 1 == active {
            sofar
        } else {
            sofar + workspaces.last().ids().filter(outside(sliding))
        }
    }
}

/// Where a tile's window is sent: a fullscreen window covers the whole
/// monitor, bar zone included.
pub open spec fn target_of(r: TileRect, fullscreen: Option<WindowId>, full: Rect) -> FloatRect {
    if fullscreen == Some(r.id) {
        full.scaled_of()
    } else {
        r.scaled_of()
    }
}

/// Targets for the tiles of one monitor, less those of a slide.
pub open spec fn tile_targets(
    tiles: Seq<TileRect>,
    fullscreen: Option<WindowId>,
    full: Rect,
    sliding: Seq<WindowId>,
) -> Seq<Effect>
    decreases tiles.len(),
{
    if tiles.len() == 0 {
        Seq::empty()
    } else {
        let sofar = tile_targets(tiles.drop_last(), fullscreen, full, sliding);
        let r = tiles.last();
        if sliding.contains(r.id) {
            sofar
        } else {
            sofar.push(Effect::SetTarget { id: r.id, rect: target_of(r, fullscreen, full) })
        }
    }
}

impl StateView {
    /// The windows that take part in the slide on a monitor.
    pub open spec fn sliding(self, device: Seq<char>) -> Seq<WindowId> {
        match self.slide_at(device) {
            Some(i) => part_ids(self.slides[i].finals),
            None => Seq::empty(),
        }
    }

    /// The tiled windows to hide, monitor by monitor.
    pub open spec fn hides(self, monitors: Seq<Monitor>, layout: Layout) -> Seq<WindowId>
        decreases monitors.len(),
    {
        if monitors.len() == 0 {
            Seq::empty()
        } else {
            let sofar = self.hides(monitors.drop_last(), layout);
            let device = monitors.last().device@;
            match layout.at(device) {
                Some(ml) => sofar + inactive_ids(
                    ml.workspaces@,
                    ml.active_workspace_idx as int,
                    self.sliding(device),
                ),
                None => sofar,
            }
        }
    }

    /// The tiled windows to show, monitor by monitor.
    pub open spec fn shows(
        self,
        monitors: Seq<Monitor>,
        tiles: Seq<Seq<TileRect>>,
        layout: Layout,
    ) -> Seq<WindowId>
        decreases monitors.len(),
    {
        if monitors.len() == 0 {
            Seq::empty()
        } else {
            let sofar = self.shows(monitors.drop_last(), tiles.drop_last(), layout);
            match layout.at(monitors.last().device@) {
                Some(ml) => sofar + tile_ids(tiles.last()),
                None => sofar,
            }
        }
    }

    /// Where the tiled windows are sent, monitor by monitor.
    pub open spec fn targets(
        self,
        monitors: Seq<Monitor>,
        tiles: Seq<Seq<TileRect>>,
        layout: Layout,
    ) -> Seq<Effect>
        decreases monitors.len(),
    {
        if monitors.len() == 0 {
            Seq::empty()
        } else {
            let sofar = self.targets(monitors.drop_last(), tiles.drop_last(), layout);
            let mon = monitors.last();
            match layout.at(mon.device@) {
                Some(ml) => sofar + tile_targets(
                    tiles.last(),
                    ml.active().fullscreen_id,
                    mon.full,
                    self.sliding(mon.device@),
                ),
                None => sofar,
            }
        }
    }

    /// The fullscreen windows, which cover their siblings.
    pub open spec fn raises(self, monitors: Seq<Monitor>, layout: Layout) -> Seq<WindowId>
        decreases monitors.len(),
    {
        if monitors.len() == 0 {
            Seq::empty()
        } else {
            let sofar = self.raises(monitors.drop_last(), layout);
            match layout.at(monitors.last().device@) {
                Some(ml) => match ml.active().fullscreen_id {
                    Some(id) => sofar.push(id),
                    None => sofar,
                },
                None => sofar,
            }
        }
    }

    /// What becomes of the floats: those on view are shown above the
    /// tiles, the others are hidden.
    pub open spec fn float_effects(self, order: Seq<WindowId>, layout: Layout) -> Seq<Effect>
        decreases order.len(),
    {
        if order.len() == 0 {
            Seq::empty()
        } else {
            let id = order.last();
            self.float_effects(order.drop_last(), layout) + (if self.float_on_view(id, layout) {
                seq![
                    Effect::Show(id),
                    Effect::Raise(id),
                    Effect::SetTarget { id, rect: self.floating[id].rect },
                ]
            } else {
                seq![Effect::Hide(id), Effect::RemoveAnimation(id)]
            })
        }
    }

    /// The windows that we keep hidden after a reflow.
    pub open spec fn hidden_after(self, tiles: Seq<Seq<TileRect>>, layout: Layout) -> Set<
        WindowId,
    > {
        let shows = self.shows(self.monitors, tiles, layout);
        let hides = self.hides(self.monitors, layout);
        Set::new(
            |id: WindowId|
                !shows.contains(id) && (hides.contains(id) || (if self.floating.contains_key(id) {
                    !self.float_on_view(id, layout)
                } else {
                    self.hidden_by_us.contains(id)
                })),
        )
    }

    /// The state after a reflow.
    pub open spec fn reflowed(self, tiles: Seq<Seq<TileRect>>, layout: Layout) -> StateView {
        if self.paused() {
            self
        } else {
            StateView { hidden_by_us: self.hidden_after(tiles, layout), ..self }
        }
    }

    /// What a reflow does. `order` lists the floats.
    pub open spec fn reflow_effects(
        self,
        order: Seq<WindowId>,
        tiles: Seq<Seq<TileRect>>,
        layout: Layout,
    ) -> Seq<Effect> {
        if self.paused() {
            Seq::empty()
        } else {
            let raises = self.raises(self.monitors, layout);
            self.float_effects(order, layout) + retire_all(self.hides(self.monitors, layout))
                + show_all(self.shows(self.monitors, tiles, layout)) + self.targets(
                self.monitors,
                tiles,
                layout,
            ) + raise_all(raises) + (if raises.len() > 0 {
                seq![Effect::RaiseBars]
            } else {
                Seq::empty()
            }) + seq![Effect::TickAnimations, Effect::UpdateFocusBorder]
        }
    }
}

/// Keep the ids outside the list.
fn keep_outside(ids: &Vec<WindowId>, list: &Vec<WindowId>) -> (kept: Vec<WindowId>)
    ensures
        kept@ == ids@.filter(outside(list@)),
{
    let mut kept: Vec<WindowId> = Vec::new();
    let mut i: usize = 0;
    proof {
        reveal(Seq::filter);
    }
    while i < ids.len()
        invariant
            i <= ids@.len(),
            kept@ == ids@.take(i as int).filter(outside(list@)),
        decreases ids@.len() - i,
    {
        proof {
            reveal(Seq::filter);
            assert(ids@.take(i + 1).drop_last() =~= ids@.take(i as int));
        }
        if !contains_id(list, ids[i]) {
            kept.push(ids[i]);
        }
        i = i + 1;
    }
    assert(ids@.take(i as int) =~= ids@);
    kept
}

/// The windows of every workspace but `active`, less those of a slide.
pub fn list_inactive(ml: &MonitorLayout, active: usize, sliding: &Vec<WindowId>) -> (ids: Vec<
    WindowId,
>)
    ensures
        ids@ == inactive_ids(ml.workspaces@, active as int, sliding@),
{
    let mut ids: Vec<WindowId> = Vec::new();
    let mut i: usize = 0;
    while i < ml.workspaces.len()
        invariant
            i <= ml.workspaces@.len(),
            ids@ == inactive_ids(
                ml.workspaces@.take(i as int),
                active as int,
                sliding@,
            ),
        decreases ml.workspaces@.len() - i,
    {
        assert(ml.workspaces@.take(i + 1).drop_last() =~= ml.workspaces@.take(i as int));
        if i != active {
            let all = ml.workspaces[i].window_ids();
            let mut kept = keep_outside(&all, sliding);
            ids.append(&mut kept);
        }
        i = i + 1;
    }
    assert(ml.workspaces@.take(i as int) =~= ml.workspaces@);
    ids
}

fn push_tile_targets(
    effects: &mut Vec<Effect>,
    tiles: &Vec<TileRect>,
    fullscreen: Option<WindowId>,
    full: &Rect,
    sliding: &Vec<WindowId>,
)
    ensures
        final(effects)@ == old(effects)@ + tile_targets(tiles@, fullscreen, *full, sliding@),
{
    let ghost before = effects@;
    let mut i: usize = 0;
    while i < tiles.len()
        invariant
            i <= tiles@.len(),
            effects@ =~= before + tile_targets(
                tiles@.take(i as int),
                fullscreen,
                *full,
                sliding@,
            ),
        decreases tiles@.len() - i,
    {
        assert(tiles@.take(i + 1).drop_last() =~= tiles@.take(i as int));
        let r = tiles[i];
        if !contains_id(sliding, r.id) {
            let rect = if fullscreen == Some(r.id) {
                full.scaled()
            } else {
                r.scaled()
            };
            effects.push(Effect::SetTarget { id: r.id, rect });
        }
        i = i + 1;
    }
    assert(tiles@.take(i as int) =~= tiles@);
}

impl AppState {
    /// The windows that take part in the slide on a monitor.
    pub fn sliding_ids(&self, device: &String) -> (ids: Vec<WindowId>)
        ensures
            ids@ == self@.sliding(device@),
    {
        match self.find_slide(device) {
            Some(i) => {
                assert(self@.slides[i as int] == self.slides@[i as int]@);
                self.slides[i].slide.window_ids()
            },
            None => Vec::new(),
        }
    }

    /// Remember that we hide these windows.
    pub fn note_hidden(&mut self, ids: &Vec<WindowId>)
        ensures
            final(self)@ == (StateView {
                hidden_by_us: old(self)@.hidden_by_us.union(ids@.to_set()),
                ..old(self)@
            }),
    {
        let mut i: usize = 0;
        while i < ids.len()
            invariant
                i <= ids@.len(),
                self@ =~= (StateView {
                    hidden_by_us: old(self)@.hidden_by_us.union(ids@.take(i as int).to_set()),
                    ..old(self)@
                }),
            decreases ids@.len() - i,
        {
            self.hidden_by_us.insert(ids[i]);
            proof {
                lemma_take_to_set(ids@, i as int);
            }
            i = i + 1;
        }
        assert(ids@.take(i as int) =~= ids@);
    }

    /// Remember that these windows are no longer hidden by us.
    pub fn note_shown(&mut self, ids: &Vec<WindowId>)
        ensures
            final(self)@ == (StateView {
                hidden_by_us: old(self)@.hidden_by_us.difference(ids@.to_set()),
                ..old(self)@
            }),
    {
        let mut i: usize = 0;
        while i < ids.len()
            invariant
                i <= ids@.len(),
                self@ =~= (StateView {
                    hidden_by_us: old(self)@.hidden_by_us.difference(ids@.take(i as int).to_set()),
                    ..old(self)@
                }),
            decreases ids@.len() - i,
        {
            self.hidden_by_us.remove(&ids[i]);
            proof {
                lemma_take_to_set(ids@, i as int);
            }
            i = i + 1;
        }
        assert(ids@.take(i as int) =~= ids@);
    }

    fn reflow_floats(&mut self, order: &Vec<WindowId>, layout: &Layout) -> (effects: Vec<Effect>)
        requires
            lists(order@, old(self)@.floating.dom()),
        ensures
            final(self)@ == (StateView {
                hidden_by_us: Set::new(
                    |id: WindowId|
                        if old(self)@.floating.contains_key(id) {
                            !old(self)@.float_on_view(id, *layout)
                        } else {
                            old(self)@.hidden_by_us.contains(id)
                        },
                ),
                ..old(self)@
            }),
            effects@ == old(self)@.float_effects(order@, *layout),
    {
        let mut effects: Vec<Effect> = Vec::new();
        let ghost v = self@;
        let mut i: usize = 0;
        while i < order.len()
            invariant
                i <= order@.len(),
                v == old(self)@,
                lists(order@, v.floating.dom()),
                effects@ == v.float_effects(order@.take(i as int), *layout),
                self@ =~= (StateView {
                    hidden_by_us: Set::new(
                        |id: WindowId|
                            if order@.take(i as int).contains(id) {
                                !v.float_on_view(id, *layout)
                            } else {
                                v.hidden_by_us.contains(id)
                            },
                    ),
                    ..v
                }),
            decreases order@.len() - i,
        {
            let id: WindowId = order[i];
            let ghost hidden = self@.hidden_by_us;
            proof {
                assert(order@.take(i + 1).drop_last() =~= order@.take(i as int));
                lemma_take_contains(order@, i as int);
                assert(order@.to_set().contains(id));
                assert(v.floating.contains_key(id));
            }
            let visible: bool = self.is_float_on_view(id, layout);
            assert(visible == v.float_on_view(id, *layout));
            if !visible {
                // Registered before it is hidden: the hiding must find it.
                self.hidden_by_us.insert(id);
                effects.push(Effect::Hide(id));
                effects.push(Effect::RemoveAnimation(id));
            } else {
                effects.push(Effect::Show(id));
                effects.push(Effect::Raise(id));
                self.hidden_by_us.remove(&id);
                if let Some(fs) = self.floating.get(&id) {
                    effects.push(Effect::SetTarget { id, rect: fs.rect });
                }
            }
            i = i + 1;
        }
        proof {
            assert(order@.take(i as int) =~= order@);
            assert forall|id: WindowId| order@.contains(id) <==> v.floating.contains_key(id) by {
                assert(order@.to_set().contains(id) <==> v.floating.dom().contains(id));
            }
        }
        effects
    }

    /// Recompute what every monitor shows and push it to the real
    /// windows. Paused while the user is dragging or resizing a window,
    /// and while management is suspended. `order` lists the floats,
    /// `tiles` holds the tiles of the workspace that each monitor shows.
    pub fn reflow(
        &mut self,
        order: &Vec<WindowId>,
        tiles: &Vec<Vec<TileRect>>,
        layout: &Layout,
    ) -> (effects: Vec<Effect>)
        requires
            old(self).wf(),
            layout.wf(),
            lists(order@, old(self)@.floating.dom()),
            tiles@.len() == old(self)@.monitors.len(),
        ensures
            final(self).wf(),
            final(self)@ == old(self)@.reflowed(tiles_of(tiles@), *layout),
            effects@ == old(self)@.reflow_effects(order@, tiles_of(tiles@), *layout),
            forall|id: WindowId, rect: FloatRect, i: int, j: int, k: int|
                !old(self)@.paused() && #[trigger] is_sent(
                    old(self)@,
                    tiles_of(tiles@),
                    *layout,
                    id,
                    rect,
                    i,
                    j,
                    k,
                ) ==> effects@.contains(Effect::SetTarget { id, rect }),
    {
        if self.is_paused() {
            return Vec::new();
        }
        let ghost v = self@;
        let ghost ts = tiles_of(tiles@);
        let mut hide_ids: Vec<WindowId> = Vec::new();
        let mut show_ids: Vec<WindowId> = Vec::new();
        let mut raise_ids: Vec<WindowId> = Vec::new();
        let mut targets: Vec<Effect> = Vec::new();
        let mut i: usize = 0;
        while i < self.monitors.len()
            invariant
                self@ == v,
                layout.wf(),
                ts == tiles_of(tiles@),
                tiles@.len() == v.monitors.len(),
                i <= v.monitors.len(),
                hide_ids@ == v.hides(v.monitors.take(i as int), *layout),
                show_ids@ == v.shows(v.monitors.take(i as int), ts.take(i as int), *layout),
                raise_ids@ == v.raises(v.monitors.take(i as int), *layout),
                targets@ == v.targets(v.monitors.take(i as int), ts.take(i as int), *layout),
            decreases v.monitors.len() - i,
        {
            let mon = &self.monitors[i];
            proof {
                assert(v.monitors.take(i + 1).drop_last() =~= v.monitors.take(i as int));
                assert(ts.take(i + 1).drop_last() =~= ts.take(i as int));
                assert(ts.take(i + 1).last() == tiles@[i as int]@);
            }
            if let Some(ml) = layout.monitor(&mon.device) {
                let sliding = self.sliding_ids(&mon.device);
                let mut inactive = list_inactive(ml, ml.active_workspace_idx, &sliding);
                hide_ids.append(&mut inactive);
                let fullscreen = ml.active_workspace().fullscreen_id;
                push_tile_targets(&mut targets, &tiles[i], fullscreen, &mon.full, &sliding);
                let mut shown = ids_of(&tiles[i]);
                show_ids.append(&mut shown);
                if let Some(id) = fullscreen {
                    raise_ids.push(id);
                }
            }
            i = i + 1;
        }
        proof {
            assert(v.monitors.take(i as int) =~= v.monitors);
            assert(ts.take(i as int) =~= ts);
        }
        let mut effects = self.reflow_floats(order, layout);
        self.note_hidden(&hide_ids);
        push_retires(&mut effects, &hide_ids);
        self.note_shown(&show_ids);
        push_shows(&mut effects, &show_ids);
        effects.append(&mut targets);
        push_raises(&mut effects, &raise_ids);
        if raise_ids.len() > 0 {
            effects.push(Effect::RaiseBars);
        }
        effects.push(Effect::TickAnimations);
        effects.push(Effect::UpdateFocusBorder);
        proof {
            assert(self@ =~= v.reflowed(ts, *layout));
            assert(effects@ =~= v.reflow_effects(order@, ts, *layout));
            assert forall|id: WindowId, rect: FloatRect, i: int, j: int, k: int| #[trigger]
                is_sent(v, ts, *layout, id, rect, i, j, k) implies effects@.contains(
                Effect::SetTarget { id, rect },
            ) by {
                law_reflow_sends_windows_to_their_places(v, order@, ts, *layout, id, rect);
            }
        }
        effects
    }
}

/// A longer prefix holds one element more.
pub proof fn lemma_take_contains(ids: Seq<WindowId>, i: int)
    requires
        0 <= i < ids.len(),
    ensures
        forall|x: WindowId|
            ids.take(i + 1).contains(x) <==> ids.take(i).contains(x) || x == ids[i],
{
    let t = ids.take(i);
    let u = ids.take(i + 1);
    assert forall|x: WindowId| u.contains(x) <==> t.contains(x) || x == ids[i] by {
        if t.contains(x) {
            let k = t.index_of(x);
            assert(u[k] == x);
        }
        if u.contains(x) {
            let k = u.index_of(x);
            if k < i {
                assert(t[k] == x);
            }
        }
        assert(u[i] == ids[i]);
    }
}

proof fn lemma_take_to_set(ids: Seq<WindowId>, i: int)
    requires
        0 <= i < ids.len(),
    ensures
        ids.take(i + 1).to_set() == ids.take(i).to_set().insert(ids[i]),
{
    lemma_take_contains(ids, i);
    let a = ids.take(i + 1).to_set();
    let b = ids.take(i).to_set().insert(ids[i]);
    assert forall|x: WindowId| a.contains(x) <==> b.contains(x) by {
        assert(a.contains(x) <==> ids.take(i + 1).contains(x));
        assert(ids.take(i).to_set().contains(x) <==> ids.take(i).contains(x));
    }
    assert(a =~= b);
}

} // verus!

//! Moving pictures: workspace-switch slides, their frames and their end,
//! and the screen transition that suspends management.

use crate::effect::{
    hide_all, place_all, push_hides, push_places, push_retires, push_shows, retire_all, show_all,
    Effect,
};
use crate::geometry::{find_monitor, monitor_at, tile_ids, TileRect, WindowId};
use crate::laws::slides::law_switches_aim_at_their_workspace;
use crate::layout::{Layout, MonitorLayout};
use crate::reflow::{inactive_ids, list_inactive};
use crate::search::lemma_first_where;
use crate::slide::{
    frame_at, ids_of, merge, merged, part_ids, shiftable, stride_of, strip_stride, tiles_of,
    PartView, Slide, SlideOn, SlideView,
};
use crate::state::{slide_on, AppState, StateView};
use std::collections::HashSet;
use vstd::prelude::*;

verus! {

broadcast use vstd::std_specs::hash::group_hash_axioms;

/// The windows of a slide that are not on the workspace shown.
pub open spec fn inactive_parts(finals: Seq<PartView>, active: Option<usize>) -> Seq<WindowId>
    decreases finals.len(),
{
    if finals.len() == 0 {
        Seq::empty()
    } else {
        let sofar = inactive_parts(finals.drop_last(), active);
        if active == Some(finals.last().workspace) {
            sofar
        } else {
            sofar + tile_ids(finals.last().rects)
        }
    }
}

/// Every slide snapped to its end: all windows placed, those of the
/// workspaces not shown hidden.
pub open spec fn snap_effects(
    slides: Seq<SlideView>,
    cameras: Seq<i64>,
    layout: Layout,
) -> Seq<Effect>
    decreases slides.len(),
{
    if slides.len() == 0 {
        Seq::empty()
    } else {
        let s = slides.last();
        snap_effects(slides.drop_last(), cameras.drop_last(), layout) + place_all(
            frame_at(s.finals, cameras.last(), s.stride),
        ) + hide_all(inactive_parts(s.finals, layout.active_on(s.device)))
    }
}

/// The windows hidden when every slide is snapped to its end.
pub open spec fn snap_hidden(slides: Seq<SlideView>, layout: Layout) -> Seq<WindowId>
    decreases slides.len(),
{
    if slides.len() == 0 {
        Seq::empty()
    } else {
        let s = slides.last();
        snap_hidden(slides.drop_last(), layout) + inactive_parts(
            s.finals,
            layout.active_on(s.device),
        )
    }
}

/// What starts a slide: its windows are placed by the camera and shown,
/// the others of the monitor's other workspaces are hidden, and the bars
/// go back on top.
pub open spec fn slide_effects(
    device: String,
    prev: usize,
    idx: usize,
    finals: Seq<PartView>,
    ml: MonitorLayout,
) -> Seq<Effect> {
    seq![Effect::AimCamera { device, from: prev, to: idx }, Effect::PlaceSlide(device)] + show_all(
        part_ids(finals),
    ) + retire_all(inactive_ids(ml.workspaces@, idx as int, part_ids(finals))) + seq![
        Effect::RaiseBars,
    ]
}

/// The camera of the monitor is aimed once, first of all: from the
/// workspace shown before at the one switched to.
pub open spec fn aims_once(effects: Seq<Effect>, device: String, prev: usize, idx: usize) -> bool {
    &&& effects.len() > 0
    &&& effects[0] == (Effect::AimCamera { device, from: prev, to: idx })
    &&& forall|k: int| 0 < k < effects.len() ==> !((#[trigger] effects[k]) is AimCamera)
}

/// There is a camera position for each slide, and no tile leaves the
/// 32-bit coordinates there.
pub open spec fn all_shiftable(slides: Seq<SlideView>, cameras: Seq<i64>) -> bool {
    &&& cameras.len() == slides.len()
    &&& forall|i: int|
        0 <= i < slides.len() ==> shiftable(
            (#[trigger] slides[i]).finals,
            cameras[i],
            slides[i].stride,
        )
}

impl StateView {
    /// A slide can start: management is not paused, slides are wanted,
    /// and the monitor is known.
    pub open spec fn can_slide(self, device: Seq<char>, layout: Layout) -> bool {
        !self.paused() && self.settings.slides_enabled && monitor_at(self.monitors, device) is Some
            && layout.at(device) is Some
    }

    /// The participants of the slide in flight on a monitor.
    pub open spec fn finals_on(self, device: Seq<char>) -> Option<Seq<PartView>> {
        match self.slide_at(device) {
            Some(i) => Some(self.slides[i].finals),
            None => None,
        }
    }

    /// The slide in flight on a monitor, if there is one, can be shown
    /// with its camera at `camera`.
    pub open spec fn shiftable_on(self, device: Seq<char>, camera: i64) -> bool {
        self.slide_at(device) matches Some(i) ==> shiftable(
            self.slides[i].finals,
            camera,
            self.slides[i].stride,
        )
    }

    /// The slides with this one in place of the monitor's earlier one.
    pub open spec fn with_slide(self, slide: SlideView) -> Seq<SlideView> {
        match self.slide_at(slide.device) {
            Some(i) => self.slides.update(i, slide),
            None => self.slides.push(slide),
        }
    }

    /// The participants of the slide from workspace `prev` to `idx`.
    pub open spec fn switch_finals(
        self,
        device: Seq<char>,
        prev: usize,
        idx: usize,
        tiles: Seq<Seq<TileRect>>,
        ml: MonitorLayout,
    ) -> Seq<PartView> {
        merged(
            self.finals_on(device),
            tiles,
            ml,
            if prev < idx {
                prev as int
            } else {
                idx as int
            },
            if prev < idx {
                idx as int
            } else {
                prev as int
            },
        )
    }

    /// The state once the slide with these participants has started:
    /// they are shown as far as they live, everything else on the
    /// monitor's other workspaces is hidden.
    pub open spec fn slide_started(
        self,
        device: Seq<char>,
        idx: usize,
        finals: Seq<PartView>,
        ml: MonitorLayout,
        alive: Set<WindowId>,
    ) -> StateView {
        let parts = part_ids(finals);
        let others = inactive_ids(ml.workspaces@, idx as int, parts);
        StateView {
            slides: self.with_slide(
                SlideView {
                    device,
                    finals,
                    stride: stride_of(
                        self.monitors[monitor_at(self.monitors, device)->0].full,
                    ),
                },
            ),
            hidden_by_us: Set::new(
                |id: WindowId|
                    others.contains(id) || (self.hidden_by_us.contains(id) && !(parts.contains(id)
                        && alive.contains(id))),
            ),
            ..self
        }
    }

    /// A frame of the slide `i`; a finished slide is settled.
    pub open spec fn slide_ticked(self, i: int, camera: i64, done: bool, layout: Layout) -> (
        StateView,
        Seq<Effect>,
    ) {
        let s = self.slides[i];
        let frame = place_all(frame_at(s.finals, camera, s.stride)).push(Effect::RaiseBars);
        if done {
            let parked = inactive_parts(s.finals, layout.active_on(s.device));
            (
                StateView {
                    slides: self.slides.remove(i),
                    hidden_by_us: self.hidden_by_us.union(parked.to_set()),
                    ..self
                },
                (frame + hide_all(parked)).push(Effect::Reflow),
            )
        } else {
            (self, frame)
        }
    }

    /// Management suspended: animations and slides snap to their ends,
    /// the ring disappears.
    pub open spec fn suspension(self, cameras: Seq<i64>, layout: Layout) -> (
        StateView,
        Seq<Effect>,
    ) {
        if self.suspended {
            (self, Seq::empty())
        } else {
            (
                StateView {
                    suspended: true,
                    slides: Seq::empty(),
                    hidden_by_us: self.hidden_by_us.union(
                        snap_hidden(self.slides, layout).to_set(),
                    ),
                    ..self
                },
                seq![Effect::FinishAnimations] + snap_effects(self.slides, cameras, layout) + (
                if self.has_focus_border {
                    seq![Effect::HideRing]
                } else {
                    Seq::empty()
                }),
            )
        }
    }

    /// The monitor that a screen transition covers: that of the focused
    /// window, or the primary one; none without an overlay.
    pub open spec fn covered_monitor(
        self,
        focused_monitor: Option<String>,
        primary: Option<String>,
    ) -> Option<String> {
        if !self.has_overlay {
            None
        } else if self.focused is Some && focused_monitor is Some {
            focused_monitor
        } else {
            primary
        }
    }

    /// A screen transition begins.
    pub open spec fn transition_begun(
        self,
        focused_monitor: Option<String>,
        primary: Option<String>,
        cameras: Seq<i64>,
        layout: Layout,
    ) -> (StateView, Seq<Effect>) {
        match self.covered_monitor(focused_monitor, primary) {
            Some(device) => {
                let (v, effects) = self.suspension(cameras, layout);
                (v, effects.push(Effect::ShowTransition(device)))
            },
            None => (self, Seq::empty()),
        }
    }
}

fn list_parked(slide: &Slide, active: Option<usize>) -> (ids: Vec<WindowId>)
    ensures
        ids@ == inactive_parts(slide@.finals, active),
{
    let mut ids: Vec<WindowId> = Vec::new();
    let mut i: usize = 0;
    while i < slide.finals.len()
        invariant
            i <= slide.finals@.len(),
            ids@ == inactive_parts(slide@.finals.take(i as int), active),
        decreases slide.finals@.len() - i,
    {
        let p = &slide.finals[i];
        proof {
            assert(slide@.finals.take(i + 1).drop_last() =~= slide@.finals.take(i as int));
            assert(slide@.finals.take(i + 1).last() == p@);
        }
        if active != Some(p.workspace) {
            let mut more = ids_of(&p.rects);
            ids.append(&mut more);
        }
        i = i + 1;
    }
    assert(slide@.finals.take(i as int) =~= slide@.finals);
    ids
}

/// The participants that live.
fn list_alive(ids: &Vec<WindowId>, alive: &HashSet<WindowId>) -> (out: Vec<WindowId>)
    ensures
        forall|id: WindowId|
            out@.contains(id) <==> ids@.contains(id) && alive@.contains(id),
{
    let mut out: Vec<WindowId> = Vec::new();
    let mut i: usize = 0;
    while i < ids.len()
        invariant
            i <= ids@.len(),
            forall|id: WindowId|
                out@.contains(id) <==> ids@.take(i as int).contains(id) && alive@.contains(id),
        decreases ids@.len() - i,
    {
        let x: WindowId = ids[i];
        let ghost before = out@;
        if alive.contains(&x) {
            out.push(x);
            assert(out@.last() == x);
        }
        proof {
            crate::reflow::lemma_take_contains(ids@, i as int);
            assert forall|id: WindowId| out@.contains(id) <==> ids@.take(i + 1).contains(id)
                && alive@.contains(id) by {
                assert(ids@.take(i + 1).contains(id) <==> ids@.take(i as int).contains(id) || id
                    == x);
                if before.contains(id) {
                    let k = before.index_of(id);
                    assert(out@[k] == id);
                }
                if out@.contains(id) && id != x {
                    let k = out@.index_of(id);
                    assert(before[k] == id);
                }
                if alive@.contains(x) {
                    assert(out@[before.len() as int] == x);
                }
            }
        }
        i = i + 1;
    }
    assert(ids@.take(i as int) =~= ids@);
    out
}

impl AppState {
    fn put_slide(&mut self, device: String, slide: Slide)
        ensures
            final(self)@ == (StateView {
                slides: old(self)@.with_slide(
                    SlideView { device: device@, finals: slide@.finals, stride: slide@.stride },
                ),
                ..old(self)@
            }),
            old(self).wf() ==> final(self).wf(),
    {
        proof {
            lemma_first_where(self@.slides, slide_on(device@));
        }
        let ghost v = self@;
        let ghost d = device@;
        match self.find_slide(&device) {
            Some(i) => {
                let entry = SlideOn { device, slide };
                self.slides.set(i, entry);
                proof {
                    assert(self@.slides =~= v.slides.update(i as int, entry@));
                }
            },
            None => {
                let entry = SlideOn { device, slide };
                self.slides.push(entry);
                proof {
                    assert(self@.slides =~= v.slides.push(entry@));
                    assert forall|k: int| 0 <= k < v.slides.len() implies (
                    #[trigger] v.slides[k]).device != d by {
                        assert(!slide_on(d)(v.slides[k]));
                    }
                }
            },
        }
    }

    /// Animate a workspace switch: workspaces live on a vertical strip
    /// and a camera moves from the old one to the new one, across every
    /// workspace between them. `None` (and nothing is done) when
    /// animations are off, the monitor is unknown, or management is
    /// paused.
    ///
    /// `tiles` holds the settled tiles of each workspace of the monitor.
    /// What a slide that this one interrupts has outside the new range
    /// keeps sliding from where it is.
    pub fn workspace_slide_reflow(
        &mut self,
        device: &String,
        prev: usize,
        idx: usize,
        tiles: &Vec<Vec<TileRect>>,
        alive: &HashSet<WindowId>,
        layout: &Layout,
    ) -> (slid: Option<Vec<Effect>>)
        requires
            old(self).wf(),
            layout.at(device@) matches Some(ml) ==> tiles@.len() == ml.workspaces@.len(),
        ensures
            final(self).wf(),
            slid is Some <==> old(self)@.can_slide(device@, *layout),
            slid is None ==> final(self)@ == old(self)@,
            slid matches Some(effects) ==> {
                let ml = layout.at(device@)->0;
                let finals = old(self)@.switch_finals(
                    device@,
                    prev,
                    idx,
                    tiles_of(tiles@),
                    ml,
                );
                &&& final(self)@ == old(self)@.slide_started(device@, idx, finals, ml, alive@)
                &&& effects@ == slide_effects(*device, prev, idx, finals, ml)
                &&& aims_once(effects@, *device, prev, idx)
            },
    {
        if self.is_paused() || !self.settings.slides_enabled {
            return None;
        }
        let stride: i64 = match find_monitor(&self.monitors, device) {
            Some(i) => strip_stride(&self.monitors[i].full),
            None => {
                return None;
            },
        };
        let ml: &MonitorLayout = match layout.monitor(device) {
            Some(ml) => ml,
            None => {
                return None;
            },
        };
        let lo: usize = if prev < idx {
            prev
        } else {
            idx
        };
        let hi: usize = if prev < idx {
            idx
        } else {
            prev
        };
        let ghost v = self@;
        let slide = match self.find_slide(device) {
            Some(i) => {
                assert(self@.slides[i as int] == self.slides@[i as int]@);
                merge(Some(&self.slides[i].slide), tiles, ml, lo, hi, stride)
            },
            None => merge(None, tiles, ml, lo, hi, stride),
        };
        let ghost finals = slide@.finals;
        let parts = slide.window_ids();
        let others = list_inactive(ml, idx, &parts);
        let living = list_alive(&parts, alive);
        let mut effects: Vec<Effect> = Vec::new();
        effects.push(Effect::AimCamera { device: device.clone(), from: prev, to: idx });
        effects.push(Effect::PlaceSlide(device.clone()));
        push_shows(&mut effects, &parts);
        push_retires(&mut effects, &others);
        effects.push(Effect::RaiseBars);
        self.note_shown(&living);
        self.note_hidden(&others);
        self.put_slide(device.clone(), slide);
        proof {
            assert(self@ =~= v.slide_started(device@, idx, finals, *ml, alive@));
            assert forall|k: int| 0 < k < effects@.len() implies !((
            #[trigger] effects@[k]) is AimCamera) by {
                law_switches_aim_at_their_workspace(*device, prev, idx, finals, *ml, k);
            }
            law_switches_aim_at_their_workspace(*device, prev, idx, finals, *ml, 0);
        }
        Some(effects)
    }

    /// Show the workspace that was switched to: slide to it, or re-tile
    /// at once.
    pub fn switch_view(
        &mut self,
        device: &String,
        prev: usize,
        idx: usize,
        tiles: &Vec<Vec<TileRect>>,
        alive: &HashSet<WindowId>,
        layout: &Layout,
    ) -> (effects: Vec<Effect>)
        requires
            old(self).wf(),
            layout.at(device@) matches Some(ml) ==> tiles@.len() == ml.workspaces@.len(),
        ensures
            final(self).wf(),
            !old(self)@.can_slide(device@, *layout) ==> final(self)@ == old(self)@ && effects@
                == seq![Effect::Reflow],
            old(self)@.can_slide(device@, *layout) ==> {
                let ml = layout.at(device@)->0;
                let finals = old(self)@.switch_finals(
                    device@,
                    prev,
                    idx,
                    tiles_of(tiles@),
                    ml,
                );
                &&& final(self)@ == old(self)@.slide_started(device@, idx, finals, ml, alive@)
                &&& effects@ == slide_effects(*device, prev, idx, finals, ml)
                &&& aims_once(effects@, *device, prev, idx)
            },
    {
        match self.workspace_slide_reflow(device, prev, idx, tiles, alive, layout) {
            Some(effects) => effects,
            None => {
                let mut effects: Vec<Effect> = Vec::new();
                effects.push(Effect::Reflow);
                effects
            },
        }
    }

    /// Advance everything that moves by one frame.
    pub fn tick_animations(&self) -> (effects: Vec<Effect>)
        ensures
            effects@ == seq![
                Effect::PollTray,
                Effect::StepAnimations,
                Effect::TickSlides,
                Effect::UpdateFocusBorder,
            ],
    {
        let mut effects: Vec<Effect> = Vec::new();
        effects.push(Effect::PollTray);
        effects.push(Effect::StepAnimations);
        effects.push(Effect::TickSlides);
        effects.push(Effect::UpdateFocusBorder);
        effects
    }

    /// Advance every slide in flight by one frame.
    pub fn tick_slides(&self) -> (effects: Vec<Effect>)
        ensures
            effects@.len() == self@.slides.len(),
            forall|i: int|
                0 <= i < effects@.len() ==> (#[trigger] effects@[i] matches Effect::TickSlide(d)
                    && d@ == self@.slides[i].device),
    {
        let mut effects: Vec<Effect> = Vec::new();
        let mut i: usize = 0;
        while i < self.slides.len()
            invariant
                i <= self.slides@.len(),
                effects@.len() == i,
                forall|k: int|
                    0 <= k < i ==> (#[trigger] effects@[k] matches Effect::TickSlide(d) && d@
                        == self@.slides[k].device),
            decreases self.slides@.len() - i,
        {
            assert(self@.slides[i as int] == self.slides@[i as int]@);
            effects.push(Effect::TickSlide(self.slides[i].device.clone()));
            i = i + 1;
        }
        effects
    }

    /// Place the windows of a slide that has just started, with its
    /// camera at `camera`.
    pub fn place_slide(&self, device: &String, camera: i64) -> (effects: Vec<Effect>)
        requires
            self@.shiftable_on(device@, camera),
        ensures
            effects@ == match self@.slide_at(device@) {
                Some(i) => place_all(
                    frame_at(self@.slides[i].finals, camera, self@.slides[i].stride),
                ),
                None => Seq::<Effect>::empty(),
            },
    {
        let mut effects: Vec<Effect> = Vec::new();
        if let Some(i) = self.find_slide(device) {
            assert(self@.slides[i as int] == self.slides@[i as int]@);
            let rects = self.slides[i].slide.rects_at(camera);
            push_places(&mut effects, &rects);
        }
        effects
    }

    /// One frame of the slide on a monitor: place its windows by the
    /// position of the camera and keep the bars above them. A finished slide is
    /// settled: windows of the workspaces not shown are hidden, and the
    /// reflow that the slide had been holding back runs.
    pub fn tick_slide(
        &mut self,
        device: &String,
        camera: i64,
        done: bool,
        layout: &Layout,
    ) -> (effects: Vec<Effect>)
        requires
            old(self).wf(),
            old(self)@.shiftable_on(device@, camera),
        ensures
            final(self).wf(),
            match old(self)@.slide_at(device@) {
                Some(i) => (final(self)@, effects@) == old(self)@.slide_ticked(
                    i,
                    camera,
                    done,
                    *layout,
                ),
                None => final(self)@ == old(self)@ && effects@.len() == 0,
            },
    {
        let mut effects: Vec<Effect> = Vec::new();
        if let Some(i) = self.find_slide(device) {
            let ghost v = self@;
            assert(self@.slides[i as int] == self.slides@[i as int]@);
            let rects = self.slides[i].slide.rects_at(camera);
            push_places(&mut effects, &rects);
            effects.push(Effect::RaiseBars);
            if done {
                let entry = self.slides.remove(i);
                proof {
                    assert(self@.slides =~= v.slides.remove(i as int));
                    assert(entry@ == v.slides[i as int]);
                }
                let active = layout.active_idx(&entry.device);
                let parked = list_parked(&entry.slide, active);
                self.note_hidden(&parked);
                push_hides(&mut effects, &parked);
                effects.push(Effect::Reflow);
                proof {
                    assert(self@ =~= v.slide_ticked(i as int, camera, done, *layout).0);
                }
            }
        }
        effects
    }

    /// Freeze all management. In-flight animations and slides snap to
    /// their ends so that nothing is caught moving. `cameras` holds the
    /// position that the camera of each slide is bound for.
    pub fn suspend_management(&mut self, cameras: &Vec<i64>, layout: &Layout) -> (effects: Vec<
        Effect,
    >)
        requires
            old(self).wf(),
            all_shiftable(old(self)@.slides, cameras@),
        ensures
            final(self).wf(),
            (final(self)@, effects@) == old(self)@.suspension(cameras@, *layout),
    {
        let mut effects: Vec<Effect> = Vec::new();
        if self.suspended {
            return effects;
        }
        let ghost v = self@;
        let ghost ds = cameras@;
        self.suspended = true;
        effects.push(Effect::FinishAnimations);
        let mut parked_all: Vec<WindowId> = Vec::new();
        let mut i: usize = 0;
        while i < self.slides.len()
            invariant
                i <= self.slides@.len(),
                self@ == (StateView { suspended: true, ..v }),
                ds == cameras@,
                all_shiftable(v.slides, ds),
                effects@ =~= seq![Effect::FinishAnimations] + snap_effects(
                    v.slides.take(i as int),
                    ds.take(i as int),
                    *layout,
                ),
                parked_all@ == snap_hidden(v.slides.take(i as int), *layout),
            decreases self.slides@.len() - i,
        {
            let s = &self.slides[i];
            proof {
                assert(self@.slides[i as int] == s@);
                assert(v.slides.take(i + 1).drop_last() =~= v.slides.take(i as int));
                assert(ds.take(i + 1).drop_last() =~= ds.take(i as int));
            }
            let rects = s.slide.rects_at(cameras[i]);
            push_places(&mut effects, &rects);
            let active = layout.active_idx(&s.device);
            let mut parked = list_parked(&s.slide, active);
            push_hides(&mut effects, &parked);
            parked_all.append(&mut parked);
            i = i + 1;
        }
        proof {
            assert(v.slides.take(i as int) =~= v.slides);
            assert(ds.take(i as int) =~= ds);
        }
        self.slides = Vec::new();
        self.note_hidden(&parked_all);
        if self.has_focus_border {
            effects.push(Effect::HideRing);
        }
        proof {
            assert(self@ =~= v.suspension(ds, *layout).0);
            assert(effects@ =~= v.suspension(ds, *layout).1);
        }
        effects
    }

    /// End a suspension: everything picks up where it left off.
    pub fn resume_management(&mut self) -> (effects: Vec<Effect>)
        ensures
            old(self).wf() ==> final(self).wf(),
            final(self)@ == (StateView { suspended: false, ..old(self)@ }),
            effects@ == (if old(self)@.suspended {
                seq![Effect::Reflow]
            } else {
                Seq::<Effect>::empty()
            }),
    {
        let mut effects: Vec<Effect> = Vec::new();
        if self.suspended {
            self.suspended = false;
            effects.push(Effect::Reflow);
        }
        effects
    }

    /// Suspend management and cover the focused window's monitor (or the
    /// primary one) for a moment, so that the window manager neither
    /// interferes with a capture of the screen nor appears in it.
    pub fn begin_screen_transition(
        &mut self,
        focused_monitor: Option<String>,
        primary: Option<String>,
        cameras: &Vec<i64>,
        layout: &Layout,
    ) -> (effects: Vec<Effect>)
        requires
            old(self).wf(),
            all_shiftable(old(self)@.slides, cameras@),
        ensures
            final(self).wf(),
            (final(self)@, effects@) == old(self)@.transition_begun(
                focused_monitor,
                primary,
                cameras@,
                *layout,
            ),
    {
        if !self.has_overlay {
            return Vec::new();
        }
        let mut device = primary;
        if self.focused.is_some() && focused_monitor.is_some() {
            device = focused_monitor;
        }
        match device {
            Some(d) => {
                let mut effects = self.suspend_management(cameras, layout);
                effects.push(Effect::ShowTransition(d));
                effects
            },
            None => Vec::new(),
        }
    }
}

} // verus!

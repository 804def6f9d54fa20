//! Focus: the view that follows it, the overview, the ring around the
//! focused window, and the input that moves it.

use crate::effect::{Effect, FocusCause};
use crate::geometry::{
    find_monitor, monitor_at, saturate_pixels, saturated_pixels, Bounds, Monitor, WindowId,
};
use crate::layout::{Layout, MonitorLayout};
use crate::search::{first_where, lemma_first_is, lemma_first_none};
use crate::state::{AppState, StateView};
use vstd::prelude::*;

verus! {

/// Monitor layouts that hold `id` and whose monitor is known.
pub open spec fn viewable(id: WindowId, monitors: Seq<Monitor>) -> spec_fn(MonitorLayout) -> bool {
    |m: MonitorLayout| m.home(id) is Some && monitor_at(monitors, m.device@) is Some
}

/// Scroll the workspace that holds `id`, on the first known monitor
/// that has it.
pub open spec fn view_effects(id: WindowId, monitors: Seq<Monitor>, layout: Layout) -> Seq<Effect> {
    match first_where(layout.monitors@, viewable(id, monitors)) {
        Some(i) => {
            let m = layout.monitors@[i];
            let mon = monitors[monitor_at(monitors, m.device@)->0];
            seq![
                Effect::RefreshView {
                    device: m.device,
                    workspace: m.home(id)->0 as usize,
                    view_width: mon.work.width_of() as i64,
                },
            ]
        },
        None => Seq::empty(),
    }
}

/// Leave the overview on every monitor that shows one.
pub open spec fn exit_effects(monitors: Seq<MonitorLayout>) -> Seq<Effect>
    decreases monitors.len(),
{
    if monitors.len() == 0 {
        Seq::empty()
    } else {
        let sofar = exit_effects(monitors.drop_last());
        if monitors.last().active().is_overview {
            sofar.push(Effect::ExitOverview(monitors.last().device))
        } else {
            sofar
        }
    }
}

impl Layout {
    /// Some monitor shows the overview.
    pub open spec fn any_overview(self) -> bool {
        exists|i: int|
            0 <= i < self.monitors@.len() && (#[trigger] self.monitors@[i]).active().is_overview
    }

    /// The window is on a workspace that is shown as an overview.
    pub open spec fn in_overview(self, id: WindowId) -> bool {
        exists|i: int|
            0 <= i < self.monitors@.len() && (#[trigger] self.monitors@[i]).active().is_overview
                && self.monitors@[i].shows(id)
    }
}

/// What leaving the overviews takes: nothing where there is none.
pub open spec fn leave_overviews(layout: Layout) -> Seq<Effect> {
    if layout.any_overview() {
        exit_effects(layout.monitors@).push(Effect::Reflow)
    } else {
        Seq::empty()
    }
}

/// Exit overview mode on every monitor. True if any was active: the
/// caller then consumes the key press.
pub fn exit_overviews(layout: &Layout) -> (r: (bool, Vec<Effect>))
    requires
        layout.wf(),
    ensures
        r.0 == layout.any_overview(),
        r.1@ == leave_overviews(*layout),
{
    let mut effects: Vec<Effect> = Vec::new();
    let mut any: bool = false;
    let mut i: usize = 0;
    while i < layout.monitors.len()
        invariant
            layout.wf(),
            i <= layout.monitors@.len(),
            effects@ == exit_effects(layout.monitors@.take(i as int)),
            any <==> exists|k: int|
                0 <= k < i && (#[trigger] layout.monitors@[k]).active().is_overview,
            !any ==> effects@.len() == 0,
        decreases layout.monitors@.len() - i,
    {
        let m = &layout.monitors[i];
        assert(layout.monitors@[i as int].wf());
        assert(layout.monitors@.take(i + 1).drop_last() =~= layout.monitors@.take(i as int));
        if m.active_workspace().is_overview {
            effects.push(Effect::ExitOverview(m.device.clone()));
            any = true;
        }
        i = i + 1;
    }
    assert(layout.monitors@.take(i as int) =~= layout.monitors@);
    if any {
        effects.push(Effect::Reflow);
    }
    (any, effects)
}

/// A click (not a drag) on a window while its overview is shown: leave
/// the overview, focused on the clicked window. `None` where the click
/// means nothing.
pub fn click_in_overview(id: WindowId, layout: &Layout) -> (handled: Option<Vec<Effect>>)
    requires
        layout.wf(),
    ensures
        handled is Some <==> layout.in_overview(id),
        handled matches Some(effects) ==> effects@ == leave_overviews(*layout).push(
            Effect::FocusWindow { id, cause: FocusCause::OverviewClick },
        ),
{
    let mut inside: bool = false;
    let mut i: usize = 0;
    while i < layout.monitors.len()
        invariant
            layout.wf(),
            i <= layout.monitors@.len(),
            inside <==> exists|k: int|
                0 <= k < i && (#[trigger] layout.monitors@[k]).active().is_overview
                    && layout.monitors@[k].shows(id),
        decreases layout.monitors@.len() - i,
    {
        let m = &layout.monitors[i];
        assert(layout.monitors@[i as int].wf());
        if m.active_workspace().is_overview {
            if let Some(ws) = m.workspace_of(id) {
                if ws == m.active_workspace_idx {
                    inside = true;
                }
            }
        }
        i = i + 1;
    }
    if !inside {
        return None;
    }
    let (_any, mut effects) = exit_overviews(layout);
    effects.push(Effect::FocusWindow { id, cause: FocusCause::OverviewClick });
    Some(effects)
}

/// The engine toggled an overview: re-tile if that changed anything.
pub fn overview_toggled(changed: bool) -> (effects: Vec<Effect>)
    ensures
        effects@ == (if changed {
            seq![Effect::Reflow]
        } else {
            Seq::<Effect>::empty()
        }),
{
    let mut effects: Vec<Effect> = Vec::new();
    if changed {
        effects.push(Effect::Reflow);
    }
    effects
}

/// What is seen of the window that the ring goes around.
#[derive(Debug, Clone, Copy, PartialEq, Eq, Structural)]
pub struct RingSight {
    pub alive: bool,
    /// Where its animation has it, if one is in flight.
    pub in_flight: Option<Bounds>,
    /// Its outer rectangle, invisible borders included.
    pub window: Option<Bounds>,
    /// Its visible rectangle.
    pub frame: Option<Bounds>,
}

/// What becomes of the ring.
#[derive(Debug, Clone, Copy, PartialEq, Eq, Structural)]
pub enum RingUpdate {
    /// There is no ring window.
    Absent,
    Hidden,
    Around { x: i32, y: i32, w: i32, h: i32, width: i32, radius: i32, color: u32 },
}

/// The visible rectangle to put the ring around. While the window
/// animates, its real rectangles trail behind; the animation's own is
/// used, less the invisible borders.
pub open spec fn ring_place(sight: RingSight) -> Option<Bounds> {
    match (sight.in_flight, sight.window, sight.frame) {
        (Some(a), Some(w), Some(f)) => {
            let left = f.x - w.x;
            let top = f.y - w.y;
            let right = (w.x + w.w) - (f.x + f.w);
            let bottom = (w.y + w.h) - (f.y + f.h);
            Some(
                Bounds {
                    x: saturated_pixels(a.x + left) as i32,
                    y: saturated_pixels(a.y + top) as i32,
                    w: saturated_pixels(a.w - left - right) as i32,
                    h: saturated_pixels(a.h - top - bottom) as i32,
                },
            )
        },
        _ => sight.frame,
    }
}

/// 0x00BBGGRR for 0xRRGGBB.
pub open spec fn swapped(rgb: u32) -> u32 {
    ((rgb % 0x100) * 0x1_0000 + (rgb / 0x100 % 0x100) * 0x100 + rgb / 0x1_0000 % 0x100) as u32
}

/// Swap the red and blue channels of a color.
pub fn swap_channels(rgb: u32) -> (bgr: u32)
    ensures
        bgr == swapped(rgb),
{
    let bgr: u32 = ((rgb & 0xFF) << 16) | (rgb & 0x00_FF_00) | ((rgb >> 16) & 0xFF);
    assert(bgr == (rgb % 0x100) * 0x1_0000 + (rgb / 0x100 % 0x100) * 0x100 + rgb / 0x1_0000
        % 0x100) by (bit_vector)
        requires
            bgr == ((rgb & 0xFF) << 16) | (rgb & 0x00_FF_00) | ((rgb >> 16) & 0xFF),
    ;
    bgr
}

fn ring_bounds(sight: &RingSight) -> (place: Option<Bounds>)
    ensures
        place == ring_place(*sight),
{
    match (sight.in_flight, sight.window, sight.frame) {
        (Some(a), Some(w), Some(f)) => {
            let left: i64 = f.x as i64 - w.x as i64;
            let top: i64 = f.y as i64 - w.y as i64;
            let right: i64 = (w.x as i64 + w.w as i64) - (f.x as i64 + f.w as i64);
            let bottom: i64 = (w.y as i64 + w.h as i64) - (f.y as i64 + f.h as i64);
            Some(
                Bounds {
                    x: saturate_pixels(a.x as i64 + left),
                    y: saturate_pixels(a.y as i64 + top),
                    w: saturate_pixels(a.w as i64 - left - right),
                    h: saturate_pixels(a.h as i64 - top - bottom),
                },
            )
        },
        _ => sight.frame,
    }
}

#[derive(Debug, Clone, Copy, PartialEq, Eq, Structural)]
pub enum MouseKind {
    WheelV,
    WheelH,
    Move,
}

/// A mouse event, with the key code that the wheel movement stands for.
#[derive(Debug, Clone, Copy, PartialEq, Eq, Structural)]
pub struct MouseEvent {
    pub kind: MouseKind,
    pub x: i32,
    pub y: i32,
    pub wheel_vk: Option<u32>,
    pub shift: bool,
    pub ctrl: bool,
    pub mod_held: bool,
}

#[derive(Debug, Clone, Copy, PartialEq, Eq, Structural)]
pub struct KeyEvent {
    pub vk: u32,
    pub pressed: bool,
    pub shift: bool,
    pub ctrl: bool,
    pub mod_held: bool,
}

/// What a mouse event leads to.
#[derive(Debug, Clone, Copy, PartialEq, Eq, Structural)]
pub enum MouseStep {
    Ignore,
    /// Dispatch the action bound to this key, if any.
    Key(KeyEvent),
    /// See which window is at this point, then
    /// `AppState::focus_follows_mouse`.
    Hover { x: i32, y: i32 },
}

/// What a key event leads to.
#[derive(Debug, PartialEq, Eq)]
pub enum KeyStep {
    Ignore,
    /// The press is used up by these effects.
    Consumed(Vec<Effect>),
    /// Dispatch the action bound to this key, if any.
    Lookup,
}

/// Key code of Escape.
pub const VK_ESCAPE: u32 = 0x1B;

impl StateView {
    /// The monitor that holds the focus: that of the focused window, or
    /// the one under the pointer.
    pub open spec fn focus_device(self, cursor: Option<String>, layout: Layout) -> Option<String> {
        match self.focused {
            Some(id) => match layout.holder(id) {
                Some(m) => Some(m.device),
                None => cursor,
            },
            None => cursor,
        }
    }

    /// The window the system is to focus.
    pub open spec fn focus_target(self, cursor: Option<String>, layout: Layout) -> Option<
        WindowId,
    > {
        match self.focus_device(cursor, layout) {
            Some(d) => layout.focus_on(d@),
            None => None,
        }
    }

    /// The window the ring belongs to: the foreground window, else the
    /// focus of the monitor under the pointer, else of the first.
    pub open spec fn ring_target(self, cursor: Option<String>, layout: Layout) -> Option<WindowId> {
        match self.focused {
            Some(id) => Some(id),
            None => match cursor {
                Some(d) => layout.focus_on(d@),
                None => if self.monitors.len() > 0 {
                    layout.focus_on(self.monitors[0].device@)
                } else {
                    None
                },
            },
        }
    }

    /// The ring's new state. `sight` is what is seen of its target.
    pub open spec fn ring(
        self,
        cursor: Option<String>,
        layout: Layout,
        sight: RingSight,
    ) -> RingUpdate {
        let r = self.settings.ring;
        if !self.has_focus_border {
            RingUpdate::Absent
        } else if !r.enabled || self.paused() {
            RingUpdate::Hidden
        } else {
            match self.ring_target(cursor, layout) {
                Some(id) if sight.alive && self.in_sight(id, layout) => match ring_place(sight) {
                    Some(b) => RingUpdate::Around {
                        x: b.x,
                        y: b.y,
                        w: b.w,
                        h: b.h,
                        width: r.width,
                        radius: r.radius,
                        color: swapped(r.active_color),
                    },
                    None => RingUpdate::Hidden,
                },
                _ => RingUpdate::Hidden,
            }
        }
    }

    /// Flash the workspace indicator, if there is one and the monitor is
    /// known.
    pub open spec fn overlay_effects(self, device: String, idx: usize) -> Seq<Effect> {
        match monitor_at(self.monitors, device@) {
            Some(i) if self.has_overlay => seq![
                Effect::ShowWorkspace {
                    device: self.monitors[i].device,
                    number: (idx + 1) as usize,
                },
            ],
            _ => Seq::empty(),
        }
    }

    /// What a mouse event leads to.
    pub open spec fn mouse_step(self, ev: MouseEvent) -> MouseStep {
        if self.suspended {
            MouseStep::Ignore
        } else if ev.kind == MouseKind::Move {
            if self.settings.focus_follows_mouse {
                MouseStep::Hover { x: ev.x, y: ev.y }
            } else {
                MouseStep::Ignore
            }
        } else {
            match ev.wheel_vk {
                Some(vk) => MouseStep::Key(
                    KeyEvent {
                        vk,
                        pressed: true,
                        shift: ev.shift,
                        ctrl: ev.ctrl,
                        mod_held: ev.mod_held,
                    },
                ),
                None => MouseStep::Ignore,
            }
        }
    }
}

impl AppState {
    /// Scroll the workspace that owns the window so that the newly
    /// focused column is visible.
    pub fn update_focus_view(&self, id: WindowId, layout: &Layout) -> (effects: Vec<Effect>)
        ensures
            effects@ == view_effects(id, self@.monitors, *layout),
    {
        let mut effects: Vec<Effect> = Vec::new();
        let mut i: usize = 0;
        while i < layout.monitors.len()
            invariant
                i <= layout.monitors@.len(),
                effects@.len() == 0,
                forall|k: int|
                    0 <= k < i ==> !viewable(id, self@.monitors)(#[trigger] layout.monitors@[k]),
            decreases layout.monitors@.len() - i,
        {
            let m = &layout.monitors[i];
            if let Some(workspace) = m.workspace_of(id) {
                if let Some(at) = find_monitor(&self.monitors, &m.device) {
                    proof {
                        lemma_first_is(
                            layout.monitors@,
                            viewable(id, self@.monitors),
                            i as int,
                        );
                    }
                    effects.push(
                        Effect::RefreshView {
                            device: m.device.clone(),
                            workspace,
                            view_width: self.monitors[at].work.width(),
                        },
                    );
                    return effects;
                }
            }
            i = i + 1;
        }
        proof {
            lemma_first_none(layout.monitors@, viewable(id, self@.monitors));
        }
        effects
    }

    /// After a layout-driven focus change, tell the system: bring the
    /// focused window to the foreground.
    pub fn sync_focus_to_os(&self, cursor: Option<String>, layout: &Layout) -> (effects: Vec<
        Effect,
    >)
        requires
            layout.wf(),
        ensures
            effects@ == match self@.focus_target(cursor, *layout) {
                Some(id) => seq![Effect::SetForegroundUnderBars(id)],
                None => Seq::<Effect>::empty(),
            },
    {
        let mut effects: Vec<Effect> = Vec::new();
        let mut device: Option<String> = None;
        if let Some(id) = self.focused {
            device = layout.device_of(id);
        }
        if device.is_none() {
            device = cursor;
        }
        if let Some(d) = device {
            if let Some(id) = layout.focused_id(&d) {
                effects.push(Effect::SetForegroundUnderBars(id));
            }
        }
        effects
    }

    /// The window that the ring belongs to.
    pub fn ring_window(&self, cursor: &Option<String>, layout: &Layout) -> (id: Option<WindowId>)
        requires
            layout.wf(),
        ensures
            id == self@.ring_target(*cursor, *layout),
    {
        match self.focused {
            Some(id) => Some(id),
            None => match cursor {
                Some(d) => layout.focused_id(d),
                None => if self.monitors.len() > 0 {
                    layout.focused_id(&self.monitors[0].device)
                } else {
                    None
                },
            },
        }
    }

    /// Place the focus ring around the focused window. Hidden when
    /// disabled, during interactions and screen transitions, or when the
    /// focused window is not in sight.
    pub fn update_focus_border(
        &self,
        cursor: &Option<String>,
        layout: &Layout,
        sight: RingSight,
    ) -> (update: RingUpdate)
        requires
            layout.wf(),
        ensures
            update == self@.ring(*cursor, *layout, sight),
    {
        if !self.has_focus_border {
            return RingUpdate::Absent;
        }
        let ring = self.settings.ring;
        if !ring.enabled || self.is_paused() {
            return RingUpdate::Hidden;
        }
        match self.ring_window(cursor, layout) {
            Some(id) => {
                if !sight.alive || !self.is_in_sight(id, layout) {
                    return RingUpdate::Hidden;
                }
                match ring_bounds(&sight) {
                    Some(b) => RingUpdate::Around {
                        x: b.x,
                        y: b.y,
                        w: b.w,
                        h: b.h,
                        width: ring.width,
                        radius: ring.radius,
                        color: swap_channels(ring.active_color),
                    },
                    None => RingUpdate::Hidden,
                }
            },
            None => RingUpdate::Hidden,
        }
    }

    /// Flash the "Workspace N" indicator on a monitor.
    pub fn show_workspace_overlay(&self, device: &String, idx: usize) -> (effects: Vec<Effect>)
        requires
            idx < usize::MAX,
        ensures
            effects@ == self@.overlay_effects(*device, idx),
    {
        let mut effects: Vec<Effect> = Vec::new();
        if let Some(i) = find_monitor(&self.monitors, device) {
            if self.has_overlay {
                effects.push(
                    Effect::ShowWorkspace {
                        device: self.monitors[i].device.clone(),
                        number: idx + 1,
                    },
                );
            }
        }
        effects
    }

    /// A mouse event: wheel movements act as key binds, moves drive
    /// focus-follows-mouse. Both rest during a screen transition.
    pub fn handle_mouse_event(&self, ev: MouseEvent) -> (step: MouseStep)
        ensures
            step == self@.mouse_step(ev),
    {
        if self.suspended {
            return MouseStep::Ignore;
        }
        match ev.kind {
            MouseKind::Move => if self.settings.focus_follows_mouse {
                MouseStep::Hover { x: ev.x, y: ev.y }
            } else {
                MouseStep::Ignore
            },
            _ => match ev.wheel_vk {
                Some(vk) => MouseStep::Key(
                    KeyEvent {
                        vk,
                        pressed: true,
                        shift: ev.shift,
                        ctrl: ev.ctrl,
                        mod_held: ev.mod_held,
                    },
                ),
                None => MouseStep::Ignore,
            },
        }
    }
}

/// A key event: releases mean nothing; Escape leaves the overview and is
/// used up if there was one; any other press is looked up in the binds.
pub fn handle_key_event(ev: KeyEvent, layout: &Layout) -> (step: KeyStep)
    requires
        layout.wf(),
    ensures
        step is Ignore <==> !ev.pressed,
        step is Consumed <==> ev.pressed && ev.vk == VK_ESCAPE && layout.any_overview(),
        step matches KeyStep::Consumed(effects) ==> effects@ == leave_overviews(*layout),
{
    if !ev.pressed {
        return KeyStep::Ignore;
    }
    if ev.vk == VK_ESCAPE {
        let (any, effects) = exit_overviews(layout);
        if any {
            return KeyStep::Consumed(effects);
        }
    }
    KeyStep::Lookup
}

} // verus!

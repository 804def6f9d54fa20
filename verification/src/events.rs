//! Reactions to window events, to the pointer and to the keyboard.

use crate::effect::{Effect, FocusCause};
use crate::floating::FloatState;
use crate::geometry::{Bounds, Rect, WindowId};
use crate::layout::Layout;
use crate::state::{AppState, StateView};
use vstd::prelude::*;

verus! {

broadcast use vstd::std_specs::hash::group_hash_axioms;

/// Something that happened to a top-level window.
#[derive(Debug, Clone, Copy, PartialEq, Eq, Structural)]
pub enum WinEvent {
    Shown(WindowId),
    Uncloaked(WindowId),
    MinimizeEnded(WindowId),
    Hidden(WindowId),
    Cloaked(WindowId),
    MinimizeStarted(WindowId),
    Destroyed(WindowId),
    MoveSizeStart(WindowId),
    MoveSizeEnd(WindowId),
    Foreground(WindowId),
}

/// What is seen of the window when the event arrives.
#[derive(Debug, Clone, Copy, PartialEq, Eq, Structural)]
pub struct Seen {
    /// Its rectangle, where the window is one that can be managed.
    pub manageable: Option<Rect>,
    /// Where it is now, where that can be read.
    pub bounds: Option<Bounds>,
}

/// How new windows that match a rule are placed.
#[derive(Debug, Clone, Copy, PartialEq, Eq, Structural)]
pub struct WindowRule {
    pub open_floating: bool,
    /// The workspace to open on, counted from one.
    pub open_workspace: Option<u32>,
    pub open_maximized: bool,
    pub open_fullscreen: bool,
}

/// The least size that a window enforces, in sub-pixels.
#[derive(Debug, Clone, Copy, PartialEq, Eq, Structural)]
pub struct MinSize {
    pub w: i64,
    pub h: i64,
}

/// The index of the workspace with this number: one less, not below
/// zero.
pub open spec fn index_of(number: u32) -> usize {
    if number == 0 {
        0
    } else {
        (number - 1) as usize
    }
}

/// The index of the workspace with this number.
pub fn workspace_index(number: u32) -> (idx: usize)
    ensures
        idx == index_of(number),
        idx < u32::MAX,
{
    if number == 0 {
        0
    } else {
        (number - 1) as usize
    }
}

impl StateView {
    /// A window came into view.
    pub open spec fn on_opened(self, id: WindowId, rect: Option<Rect>) -> (StateView, Seq<Effect>) {
        match rect {
            Some(r) if !self.windows.contains(id) => (
                StateView {
                    windows: self.windows.insert(id),
                    original_rects: self.original_rects.insert(id, r),
                    ..self
                },
                seq![Effect::PlaceWindow(id), Effect::Reflow],
            ),
            _ => (self, Seq::empty()),
        }
    }

    /// A window went out of management.
    pub open spec fn on_closed(self, id: WindowId) -> (StateView, Seq<Effect>) {
        if self.windows.contains(id) {
            (
                self.without(id),
                seq![Effect::RemoveWindow(id), Effect::RemoveAnimation(id)]
                    + self.border_effects(id) + seq![Effect::Reflow],
            )
        } else {
            (self, Seq::empty())
        }
    }

    /// A window disappeared; if we hid it ourselves, nothing happens.
    pub open spec fn on_hidden(self, id: WindowId) -> (StateView, Seq<Effect>) {
        if self.hidden_by_us.contains(id) {
            (self, Seq::empty())
        } else {
            self.on_closed(id)
        }
    }

    /// A window is no more.
    pub open spec fn on_destroyed(self, id: WindowId) -> (StateView, Seq<Effect>) {
        StateView { hidden_by_us: self.hidden_by_us.remove(id), ..self }.on_closed(id)
    }

    /// The user takes hold of a window.
    pub open spec fn on_grabbed(self, id: WindowId, bounds: Option<Bounds>) -> (
        StateView,
        Seq<Effect>,
    ) {
        if self.windows.contains(id) {
            (
                StateView { interacting_window: Some(id), interact_start: bounds, ..self },
                seq![Effect::UpdateFocusBorder],
            )
        } else {
            (self, Seq::empty())
        }
    }

    /// The user lets go of a window: a float stays where it was put, a
    /// tiled window is dropped.
    pub open spec fn on_released(self, id: WindowId, bounds: Option<Bounds>) -> (
        StateView,
        Seq<Effect>,
    ) {
        if self.interacting_window != Some(id) {
            (self, Seq::empty())
        } else if !self.floating.contains_key(id) {
            (StateView { interacting_window: None, ..self }, seq![Effect::DragEnd(id)])
        } else {
            match bounds {
                Some(b) => (
                    StateView {
                        interacting_window: None,
                        floating: self.floating.insert(
                            id,
                            FloatState { rect: b.scaled_of(), ..self.floating[id] },
                        ),
                        ..self
                    },
                    Seq::empty(),
                ),
                None => (StateView { interacting_window: None, ..self }, Seq::empty()),
            }
        }
    }

    /// A window came to the foreground. The bars go back on top in any
    /// case: the window raised itself.
    pub open spec fn on_foreground(self, id: WindowId) -> (StateView, Seq<Effect>) {
        if self.focused == Some(id) {
            (self, seq![Effect::RaiseBars])
        } else {
            (
                StateView { focused: Some(id), ..self },
                seq![
                    Effect::FocusWindow { id, cause: FocusCause::Foreground },
                    Effect::RaiseBars,
                ],
            )
        }
    }

    /// The reaction to a window event.
    pub open spec fn on_event(self, event: WinEvent, seen: Seen) -> (StateView, Seq<Effect>) {
        match event {
            WinEvent::Shown(id) => self.on_opened(id, seen.manageable),
            WinEvent::Uncloaked(id) => self.on_opened(id, seen.manageable),
            WinEvent::MinimizeEnded(id) => self.on_opened(id, seen.manageable),
            WinEvent::Hidden(id) => self.on_hidden(id),
            WinEvent::Cloaked(id) => self.on_hidden(id),
            WinEvent::MinimizeStarted(id) => self.on_hidden(id),
            WinEvent::Destroyed(id) => self.on_destroyed(id),
            WinEvent::MoveSizeStart(id) => self.on_grabbed(id, seen.bounds),
            WinEvent::MoveSizeEnd(id) => self.on_released(id, seen.bounds),
            WinEvent::Foreground(id) => self.on_foreground(id),
        }
    }

    /// The layout focus was moved to `id`, or the layout does not hold
    /// it. A window that the pointer rests on is focused either way: a
    /// float is not in the layout.
    pub open spec fn on_focus(self, id: WindowId, cause: FocusCause, moved: bool) -> (
        StateView,
        Seq<Effect>,
    ) {
        match cause {
            FocusCause::Foreground => (
                self,
                if moved {
                    seq![Effect::UpdateFocusView(id), Effect::Reflow]
                } else {
                    seq![Effect::UpdateFocusBorder]
                },
            ),
            FocusCause::Hover => (
                StateView { focused: Some(id), ..self },
                (if moved {
                    seq![Effect::UpdateFocusView(id), Effect::Reflow]
                } else {
                    seq![Effect::UpdateFocusBorder]
                }) + seq![Effect::SetForeground(id), Effect::RaiseBars],
            ),
            FocusCause::OverviewClick => if moved {
                (
                    StateView { focused: Some(id), ..self },
                    seq![Effect::UpdateFocusView(id), Effect::Reflow, Effect::SyncFocus],
                )
            } else {
                (self, seq![Effect::Reflow, Effect::SyncFocus])
            },
        }
    }

    /// Where a newly tracked window goes: it floats where it is if its
    /// rule says so and its place can be read, else it is tiled.
    pub open spec fn on_placed(
        self,
        id: WindowId,
        device: String,
        rule: Option<WindowRule>,
        bounds: Option<Bounds>,
        layout: Layout,
    ) -> (StateView, Seq<Effect>) {
        if rule is Some && rule->0.open_floating && bounds is Some {
            (
                StateView {
                    floating: self.floating.insert(
                        id,
                        FloatState {
                            device,
                            workspace_idx: match layout.active_on(device@) {
                                Some(i) => i,
                                None => 0,
                            },
                            rect: bounds->0.scaled_of(),
                        },
                    ),
                    ..self
                },
                Seq::empty(),
            )
        } else {
            (
                self,
                seq![
                    if rule is Some && rule->0.open_workspace is Some && layout.at(
                        device@,
                    ) is Some {
                        Effect::AddWindowToWorkspace {
                            device,
                            id,
                            idx: index_of(rule->0.open_workspace->0),
                        }
                    } else {
                        Effect::AddWindow { device, id }
                    },
                    Effect::FinishPlacement(id),
                ],
            )
        }
    }

    /// The pointer came to rest on the window `under`.
    pub open spec fn on_hover(self, under: Option<WindowId>, layout: Layout) -> Seq<Effect> {
        match under {
            Some(id) if self.interacting_window is None && self.windows.contains(id)
                && self.focused != Some(id) && self.in_sight(id, layout) => seq![
                Effect::FocusWindow { id, cause: FocusCause::Hover },
            ],
            _ => Seq::empty(),
        }
    }
}

/// What the matching rule and the window's own least size ask for once
/// the window is in the layout.
pub open spec fn placement_effects(
    id: WindowId,
    device: String,
    rule: Option<WindowRule>,
    min: MinSize,
    layout: Layout,
) -> Seq<Effect> {
    let at = layout.at(device@);
    let found = rule is Some && at is Some && at->0.home(id) is Some;
    let workspace = at->0.home(id)->0 as usize;
    (if found && rule->0.open_maximized {
        seq![
            Effect::MaximizeColumn {
                device,
                workspace,
                column: at->0.workspaces@[workspace as int].column_of(id)->0 as usize,
            },
        ]
    } else {
        Seq::empty()
    }) + (if found && rule->0.open_fullscreen {
        seq![Effect::SetFullscreen { device, workspace, id }]
    } else {
        Seq::empty()
    }) + (if min.w > 0 || min.h > 0 {
        seq![Effect::SetMinSize { id, w: min.w, h: min.h }]
    } else {
        Seq::empty()
    })
}

/// The monitor a new window belongs to: the one it is on, or none, by
/// the empty name.
pub fn home_device(device: Option<String>) -> (d: String)
    ensures
        device matches Some(s) ==> d == s,
        device is None ==> d@ == Seq::<char>::empty(),
{
    match device {
        Some(s) => s,
        None => String::new(),
    }
}

/// The window was put into the layout: apply what its rule still asks
/// for (a maximized column, windowed fullscreen), on whichever workspace
/// it opened, and the least size that the window enforces.
pub fn finish_placement(
    id: WindowId,
    device: &String,
    rule: Option<WindowRule>,
    min: MinSize,
    layout: &Layout,
) -> (effects: Vec<Effect>)
    ensures
        effects@ == placement_effects(id, *device, rule, min, *layout),
{
    let mut effects: Vec<Effect> = Vec::new();
    if let Some(r) = rule {
        if let Some(ml) = layout.monitor(device) {
            if let Some(workspace) = ml.workspace_of(id) {
                if let Some((column, _row)) = ml.workspaces[workspace].find(id) {
                    if r.open_maximized {
                        effects.push(
                            Effect::MaximizeColumn { device: device.clone(), workspace, column },
                        );
                    }
                    if r.open_fullscreen {
                        effects.push(
                            Effect::SetFullscreen { device: device.clone(), workspace, id },
                        );
                    }
                }
            }
        }
    }
    if min.w > 0 || min.h > 0 {
        effects.push(Effect::SetMinSize { id, w: min.w, h: min.h });
    }
    assert(effects@ =~= placement_effects(id, *device, rule, min, *layout));
    effects
}

impl AppState {
    fn track(&mut self, id: WindowId, rect: Option<Rect>) -> (effects: Vec<Effect>)
        requires
            old(self).wf(),
        ensures
            final(self).wf(),
            (final(self)@, effects@) == old(self)@.on_opened(id, rect),
    {
        let mut effects: Vec<Effect> = Vec::new();
        if let Some(r) = rect {
            if !self.windows.contains(&id) {
                self.windows.insert(id);
                self.original_rects.insert(id, r);
                effects.push(Effect::PlaceWindow(id));
                effects.push(Effect::Reflow);
            }
        }
        proof {
            assert(self@ =~= old(self)@.on_opened(id, rect).0);
        }
        effects
    }

    fn unmanage(&mut self, id: WindowId) -> (effects: Vec<Effect>)
        requires
            old(self).wf(),
        ensures
            final(self).wf(),
            (final(self)@, effects@) == old(self)@.on_closed(id),
    {
        let mut effects: Vec<Effect> = Vec::new();
        if self.windows.remove(&id) {
            effects.push(Effect::RemoveWindow(id));
            effects.push(Effect::RemoveAnimation(id));
            let mut borders = self.restore_borders(id);
            effects.append(&mut borders);
            self.floating.remove(&id);
            self.original_rects.remove(&id);
            effects.push(Effect::Reflow);
        }
        proof {
            assert(self@ =~= old(self)@.on_closed(id).0);
        }
        effects
    }

    fn withdraw(&mut self, id: WindowId) -> (effects: Vec<Effect>)
        requires
            old(self).wf(),
        ensures
            final(self).wf(),
            (final(self)@, effects@) == old(self)@.on_hidden(id),
    {
        if self.hidden_by_us.contains(&id) {
            Vec::new()
        } else {
            self.unmanage(id)
        }
    }

    /// React to a window event: keep the registry in sync with reality.
    pub fn handle_event(&mut self, event: WinEvent, seen: Seen) -> (effects: Vec<Effect>)
        requires
            old(self).wf(),
        ensures
            final(self).wf(),
            (final(self)@, effects@) == old(self)@.on_event(event, seen),
    {
        match event {
            WinEvent::Shown(id) => self.track(id, seen.manageable),
            WinEvent::Uncloaked(id) => self.track(id, seen.manageable),
            WinEvent::MinimizeEnded(id) => self.track(id, seen.manageable),
            WinEvent::Hidden(id) => self.withdraw(id),
            WinEvent::Cloaked(id) => self.withdraw(id),
            WinEvent::MinimizeStarted(id) => self.withdraw(id),
            WinEvent::Destroyed(id) => {
                self.hidden_by_us.remove(&id);
                proof {
                    assert(self@ =~= (StateView {
                        hidden_by_us: old(self)@.hidden_by_us.remove(id),
                        ..old(self)@
                    }));
                }
                self.unmanage(id)
            },
            WinEvent::MoveSizeStart(id) => {
                let mut effects: Vec<Effect> = Vec::new();
                if self.windows.contains(&id) {
                    self.interacting_window = Some(id);
                    self.interact_start = seen.bounds;
                    effects.push(Effect::UpdateFocusBorder);
                }
                effects
            },
            WinEvent::MoveSizeEnd(id) => {
                let mut effects: Vec<Effect> = Vec::new();
                if self.interacting_window == Some(id) {
                    self.interacting_window = None;
                    match self.floating.remove(&id) {
                        Some(fs) => {
                            let rect = match seen.bounds {
                                Some(b) => b.scaled(),
                                None => fs.rect,
                            };
                            let moved = FloatState {
                                device: fs.device,
                                workspace_idx: fs.workspace_idx,
                                rect,
                            };
                            self.floating.insert(id, moved);
                        },
                        None => {
                            effects.push(Effect::DragEnd(id));
                        },
                    }
                }
                proof {
                    assert((self@, effects@) =~= old(self)@.on_event(event, seen));
                }
                effects
            },
            WinEvent::Foreground(id) => {
                let mut effects: Vec<Effect> = Vec::new();
                if self.focused != Some(id) {
                    self.focused = Some(id);
                    effects.push(Effect::FocusWindow { id, cause: FocusCause::Foreground });
                }
                effects.push(Effect::RaiseBars);
                effects
            },
        }
    }

    /// The layout was asked to move its focus to the window; `moved`
    /// says whether it holds it.
    pub fn focus_moved(&mut self, id: WindowId, cause: FocusCause, moved: bool) -> (effects: Vec<
        Effect,
    >)
        ensures
            (final(self)@, effects@) == old(self)@.on_focus(id, cause, moved),
            old(self).wf() ==> final(self).wf(),
    {
        let mut effects: Vec<Effect> = Vec::new();
        match cause {
            FocusCause::Foreground => {
                if moved {
                    effects.push(Effect::UpdateFocusView(id));
                    effects.push(Effect::Reflow);
                } else {
                    effects.push(Effect::UpdateFocusBorder);
                }
            },
            FocusCause::Hover => {
                self.focused = Some(id);
                if moved {
                    effects.push(Effect::UpdateFocusView(id));
                    effects.push(Effect::Reflow);
                } else {
                    effects.push(Effect::UpdateFocusBorder);
                }
                effects.push(Effect::SetForeground(id));
                effects.push(Effect::RaiseBars);
            },
            FocusCause::OverviewClick => {
                if moved {
                    self.focused = Some(id);
                    effects.push(Effect::UpdateFocusView(id));
                }
                effects.push(Effect::Reflow);
                effects.push(Effect::SyncFocus);
            },
        }
        effects
    }

    /// Place a newly tracked window into the layout, applying the
    /// matching window rule. Without one it goes to the workspace that
    /// its monitor shows.
    pub fn layout_add_window(
        &mut self,
        id: WindowId,
        device: String,
        rule: Option<WindowRule>,
        bounds: Option<Bounds>,
        layout: &Layout,
    ) -> (effects: Vec<Effect>)
        ensures
            (final(self)@, effects@) == old(self)@.on_placed(id, device, rule, bounds, *layout),
            old(self).wf() ==> final(self).wf(),
    {
        let mut effects: Vec<Effect> = Vec::new();
        let mut target: Option<usize> = None;
        if let Some(r) = rule {
            if r.open_floating {
                if let Some(b) = bounds {
                    let workspace_idx: usize = match layout.active_idx(&device) {
                        Some(i) => i,
                        None => 0,
                    };
                    self.floating.insert(
                        id,
                        FloatState { device, workspace_idx, rect: b.scaled() },
                    );
                    return effects;
                }
            }
            if let Some(n) = r.open_workspace {
                target = Some(workspace_index(n));
            }
        }
        match target {
            Some(idx) => {
                if layout.monitor(&device).is_some() {
                    effects.push(Effect::AddWindowToWorkspace { device, id, idx });
                } else {
                    effects.push(Effect::AddWindow { device, id });
                }
            },
            None => {
                effects.push(Effect::AddWindow { device, id });
            },
        }
        effects.push(Effect::FinishPlacement(id));
        effects
    }

    /// Hovering a managed window that is in sight focuses it. Skipped
    /// while the user is dragging or resizing.
    pub fn focus_follows_mouse(&self, under: Option<WindowId>, layout: &Layout) -> (effects: Vec<
        Effect,
    >)
        ensures
            effects@ == self@.on_hover(under, *layout),
    {
        let mut effects: Vec<Effect> = Vec::new();
        if self.interacting_window.is_some() {
            return effects;
        }
        if let Some(id) = under {
            if self.windows.contains(&id) && self.focused != Some(id) && self.is_in_sight(
                id,
                layout,
            ) {
                effects.push(Effect::FocusWindow { id, cause: FocusCause::Hover });
            }
        }
        effects
    }
}

} // verus!

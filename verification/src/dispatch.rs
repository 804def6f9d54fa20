//! Bound actions: what each does to the focused window, to its
//! workspace, or to the program.

use crate::effect::{DirH, DirV, Edge, Effect, TilingOp};
use crate::events::{index_of, workspace_index};
use crate::floating::{
    adjust, adjusted, can_adjust, changed, default_place, has_room, place_default, FloatChange,
    FloatState, SizeChange,
};
use crate::geometry::{find_monitor, monitor_at, Bounds, FloatRect, Monitor, Rect, WindowId};
use crate::laws::actions::law_actions_run_where_the_focus_is;
use crate::laws::lookup::is_home;
use crate::layout::{Layout, MonitorLayout};
use crate::placement::{decorations, decorations_of};
use crate::state::{AppState, StateView};
use vstd::prelude::*;

verus! {

broadcast use vstd::std_specs::hash::group_hash_axioms;

/// A bound action. Size changes are `None` where none was given.
#[derive(Debug)]
pub enum Action {
    FocusColumnLeft,
    FocusColumnRight,
    FocusWindowDown,
    FocusWindowUp,
    MoveColumnLeft,
    MoveColumnRight,
    MoveWindowDown,
    MoveWindowUp,
    MoveWindowToColumnLeft,
    MoveWindowToColumnRight,
    ConsumeOrExpelWindowLeft,
    ConsumeOrExpelWindowRight,
    ConsumeWindowIntoColumn,
    ExpelWindowFromColumn,
    FocusColumnFirst,
    FocusColumnLast,
    FocusColumnIndex(u32),
    SetColumnWidth(Option<SizeChange>),
    SwitchPresetColumnWidth,
    SetWindowHeight(Option<SizeChange>),
    ToggleFullWidth,
    MaximizeColumn,
    ToggleWindowedFullscreen,
    FocusWorkspace(u32),
    WorkspaceSwitch(u32),
    MoveWindowToWorkspace(u32),
    MoveColumnToWorkspace(u32),
    Spawn(String),
    Quit,
    CloseWindow,
    ToggleWindowFloating,
    ToggleOverview,
    DoScreenTransition,
}

impl Action {
    /// The operation of the layout engine that the action stands for.
    pub open spec fn op(self) -> Option<TilingOp> {
        match self {
            Action::FocusColumnLeft => Some(TilingOp::FocusColumn(DirH::Left)),
            Action::FocusColumnRight => Some(TilingOp::FocusColumn(DirH::Right)),
            Action::FocusWindowDown => Some(TilingOp::FocusTile(DirV::Down)),
            Action::FocusWindowUp => Some(TilingOp::FocusTile(DirV::Up)),
            Action::MoveColumnLeft => Some(TilingOp::MoveColumn(DirH::Left)),
            Action::MoveColumnRight => Some(TilingOp::MoveColumn(DirH::Right)),
            Action::MoveWindowDown => Some(TilingOp::MoveTile(DirV::Down)),
            Action::MoveWindowUp => Some(TilingOp::MoveTile(DirV::Up)),
            Action::MoveWindowToColumnLeft => Some(TilingOp::MoveTileAcross(DirH::Left)),
            Action::MoveWindowToColumnRight => Some(TilingOp::MoveTileAcross(DirH::Right)),
            Action::ConsumeOrExpelWindowLeft => Some(TilingOp::ConsumeOrExpel(DirH::Left)),
            Action::ConsumeOrExpelWindowRight => Some(TilingOp::ConsumeOrExpel(DirH::Right)),
            Action::ConsumeWindowIntoColumn => Some(TilingOp::ConsumeIntoColumn),
            Action::ExpelWindowFromColumn => Some(TilingOp::ExpelFromColumn),
            Action::FocusColumnFirst => Some(TilingOp::FocusColumnEdge(Edge::First)),
            Action::FocusColumnLast => Some(TilingOp::FocusColumnEdge(Edge::Last)),
            Action::FocusColumnIndex(n) => Some(TilingOp::FocusColumnIndex(index_of(n))),
            Action::SetColumnWidth(Some(c)) => Some(TilingOp::SetColumnWidth(c)),
            Action::SetColumnWidth(None) => Some(TilingOp::CycleColumnWidth),
            Action::SwitchPresetColumnWidth => Some(TilingOp::CycleColumnWidth),
            Action::SetWindowHeight(Some(c)) => Some(TilingOp::SetWindowHeight(c)),
            Action::SetWindowHeight(None) => None,
            Action::ToggleFullWidth => Some(TilingOp::ToggleFullWidth),
            Action::MaximizeColumn => Some(TilingOp::ToggleMaximized),
            Action::ToggleWindowedFullscreen => Some(TilingOp::ToggleFullscreen),
            Action::FocusWorkspace(n) => Some(TilingOp::SwitchWorkspace(index_of(n))),
            Action::WorkspaceSwitch(n) => Some(TilingOp::SwitchWorkspace(index_of(n))),
            Action::MoveWindowToWorkspace(n) => Some(TilingOp::MoveWindowToWorkspace(index_of(n))),
            Action::MoveColumnToWorkspace(n) => Some(TilingOp::MoveColumnToWorkspace(index_of(n))),
            _ => None,
        }
    }

    /// What the action does to a floating window: tiling moves and
    /// resizes carry over.
    pub open spec fn float_change(self) -> Option<FloatChange> {
        match self {
            Action::MoveColumnLeft => Some(FloatChange::Left),
            Action::MoveColumnRight => Some(FloatChange::Right),
            Action::MoveWindowUp => Some(FloatChange::Up),
            Action::MoveWindowDown => Some(FloatChange::Down),
            Action::SetColumnWidth(Some(c)) => Some(FloatChange::Width(c)),
            Action::SetWindowHeight(Some(c)) => Some(FloatChange::Height(c)),
            _ => None,
        }
    }

    /// The action is about the floating window itself when one is
    /// focused; any other goes to the tiling below it. Resizing is about
    /// the float even where no change was given.
    pub open spec fn for_float(self) -> bool {
        ||| self is ToggleWindowFloating
        ||| self is ToggleOverview
        ||| self is CloseWindow
        ||| self is SetColumnWidth
        ||| self is SetWindowHeight
        ||| self.float_change() is Some
    }

    fn is_for_float(&self) -> (b: bool)
        ensures
            b == self.for_float(),
    {
        matches!(
            self,
            Action::ToggleWindowFloating
                | Action::ToggleOverview
                | Action::CloseWindow
                | Action::SetColumnWidth(_)
                | Action::SetWindowHeight(_)
        ) || self.change_of_float().is_some()
    }

    fn tiling_op(&self) -> (op: Option<TilingOp>)
        ensures
            op == self.op(),
    {
        match self {
            Action::FocusColumnLeft => Some(TilingOp::FocusColumn(DirH::Left)),
            Action::FocusColumnRight => Some(TilingOp::FocusColumn(DirH::Right)),
            Action::FocusWindowDown => Some(TilingOp::FocusTile(DirV::Down)),
            Action::FocusWindowUp => Some(TilingOp::FocusTile(DirV::Up)),
            Action::MoveColumnLeft => Some(TilingOp::MoveColumn(DirH::Left)),
            Action::MoveColumnRight => Some(TilingOp::MoveColumn(DirH::Right)),
            Action::MoveWindowDown => Some(TilingOp::MoveTile(DirV::Down)),
            Action::MoveWindowUp => Some(TilingOp::MoveTile(DirV::Up)),
            Action::MoveWindowToColumnLeft => Some(TilingOp::MoveTileAcross(DirH::Left)),
            Action::MoveWindowToColumnRight => Some(TilingOp::MoveTileAcross(DirH::Right)),
            Action::ConsumeOrExpelWindowLeft => Some(TilingOp::ConsumeOrExpel(DirH::Left)),
            Action::ConsumeOrExpelWindowRight => Some(TilingOp::ConsumeOrExpel(DirH::Right)),
            Action::ConsumeWindowIntoColumn => Some(TilingOp::ConsumeIntoColumn),
            Action::ExpelWindowFromColumn => Some(TilingOp::ExpelFromColumn),
            Action::FocusColumnFirst => Some(TilingOp::FocusColumnEdge(Edge::First)),
            Action::FocusColumnLast => Some(TilingOp::FocusColumnEdge(Edge::Last)),
            Action::FocusColumnIndex(n) => Some(TilingOp::FocusColumnIndex(workspace_index(*n))),
            Action::SetColumnWidth(Some(c)) => Some(TilingOp::SetColumnWidth(*c)),
            Action::SetColumnWidth(None) => Some(TilingOp::CycleColumnWidth),
            Action::SwitchPresetColumnWidth => Some(TilingOp::CycleColumnWidth),
            Action::SetWindowHeight(Some(c)) => Some(TilingOp::SetWindowHeight(*c)),
            Action::SetWindowHeight(None) => None,
            Action::ToggleFullWidth => Some(TilingOp::ToggleFullWidth),
            Action::MaximizeColumn => Some(TilingOp::ToggleMaximized),
            Action::ToggleWindowedFullscreen => Some(TilingOp::ToggleFullscreen),
            Action::FocusWorkspace(n) => Some(TilingOp::SwitchWorkspace(workspace_index(*n))),
            Action::WorkspaceSwitch(n) => Some(TilingOp::SwitchWorkspace(workspace_index(*n))),
            Action::MoveWindowToWorkspace(n) => Some(
                TilingOp::MoveWindowToWorkspace(workspace_index(*n)),
            ),
            Action::MoveColumnToWorkspace(n) => Some(
                TilingOp::MoveColumnToWorkspace(workspace_index(*n)),
            ),
            _ => None,
        }
    }

    fn change_of_float(&self) -> (change: Option<FloatChange>)
        ensures
            change == self.float_change(),
    {
        match self {
            Action::MoveColumnLeft => Some(FloatChange::Left),
            Action::MoveColumnRight => Some(FloatChange::Right),
            Action::MoveWindowUp => Some(FloatChange::Up),
            Action::MoveWindowDown => Some(FloatChange::Down),
            Action::SetColumnWidth(Some(c)) => Some(FloatChange::Width(*c)),
            Action::SetWindowHeight(Some(c)) => Some(FloatChange::Height(*c)),
            _ => None,
        }
    }
}

impl TilingOp {
    /// The workspace that the operation switches to.
    pub open spec fn target(self) -> Option<usize> {
        match self {
            TilingOp::SwitchWorkspace(idx) => Some(idx),
            TilingOp::MoveWindowToWorkspace(idx) => Some(idx),
            TilingOp::MoveColumnToWorkspace(idx) => Some(idx),
            _ => None,
        }
    }

    fn workspace(&self) -> (idx: Option<usize>)
        ensures
            idx == self.target(),
    {
        match self {
            TilingOp::SwitchWorkspace(idx) => Some(*idx),
            TilingOp::MoveWindowToWorkspace(idx) => Some(*idx),
            TilingOp::MoveColumnToWorkspace(idx) => Some(*idx),
            _ => None,
        }
    }
}

/// Every operation of the layout engine among the effects is for this
/// monitor.
pub open spec fn runs_only_on(effects: Seq<Effect>, home: String) -> bool {
    forall|k: int|
        0 <= k < effects.len() ==> (#[trigger] effects[k] matches Effect::Tiling { device, .. }
            ==> device == home)
}

/// The work area of the monitor of that name.
pub open spec fn work_of(monitors: Seq<Monitor>, device: Seq<char>) -> Option<Rect> {
    match monitor_at(monitors, device) {
        Some(i) => Some(monitors[i].work),
        None => None,
    }
}

/// The window focused on a workspace of a monitor.
pub open spec fn focus_of_workspace(layout: Layout, device: Seq<char>, idx: usize) -> Option<
    WindowId,
> {
    match layout.at(device) {
        Some(m) if idx < m.workspaces@.len() => m.workspaces@[idx as int].focused,
        _ => None,
    }
}

/// The window in fullscreen on the workspace that a monitor shows.
pub open spec fn fullscreen_on(layout: Layout, device: Seq<char>) -> Option<WindowId> {
    match layout.at(device) {
        Some(m) => m.active().fullscreen_id,
        None => None,
    }
}

impl StateView {
    /// The window an action is about: the foreground window, else the
    /// one focused on the monitor under the pointer.
    pub open spec fn subject(self, cursor: Option<String>, layout: Layout) -> Option<WindowId> {
        match self.focused {
            Some(id) => Some(id),
            None => match cursor {
                Some(d) => layout.focus_on(d@),
                None => None,
            },
        }
    }

    /// The monitor an action is about: the one that holds its window,
    /// else the one under the pointer.
    pub open spec fn place_of_action(self, cursor: Option<String>, layout: Layout) -> Option<
        String,
    > {
        match self.subject(cursor, layout) {
            Some(id) => match layout.holder(id) {
                Some(m) => Some(m.device),
                None => cursor,
            },
            None => cursor,
        }
    }

    /// The float goes back into the tiling.
    pub open spec fn unfloated(self, id: WindowId, device: String) -> (StateView, Seq<Effect>) {
        (
            StateView { floating: self.floating.remove(id), ..self },
            seq![Effect::AddWindow { device, id }, Effect::Reflow, Effect::SyncFocus],
        )
    }

    /// A tiled window becomes a float.
    pub open spec fn floated(
        self,
        id: WindowId,
        device: String,
        bounds: Option<Bounds>,
        layout: Layout,
    ) -> (StateView, Seq<Effect>) {
        let rect = match bounds {
            Some(b) => b.scaled_of(),
            None => default_place(self.work_near(device@)),
        };
        let workspace_idx = match layout.active_on(device@) {
            Some(i) => i,
            None => 0,
        };
        (
            StateView {
                floating: self.floating.insert(id, FloatState { device, workspace_idx, rect }),
                ..self
            },
            seq![Effect::SetTarget { id, rect }, Effect::Reflow],
        )
    }

    /// The work area of the monitor of that name, else of the first.
    pub open spec fn work_near(self, device: Seq<char>) -> Option<Rect> {
        match work_of(self.monitors, device) {
            Some(r) => Some(r),
            None => if self.monitors.len() > 0 {
                Some(self.monitors[0].work)
            } else {
                None
            },
        }
    }

    /// The float after a move or resize.
    pub open spec fn float_after(self, id: WindowId, change: FloatChange) -> FloatState {
        let fs = self.floating[id];
        FloatState {
            rect: adjusted(fs.rect, change, work_of(self.monitors, fs.device@)),
            ..fs
        }
    }

    /// An action on a floating window.
    pub open spec fn on_float_action(self, id: WindowId, action: Action, layout: Layout) -> (
        StateView,
        Seq<Effect>,
    ) {
        let fs = self.floating[id];
        match action {
            Action::ToggleWindowFloating => self.unfloated(id, fs.device),
            Action::ToggleOverview => (
                self,
                if layout.at(fs.device@) is Some {
                    seq![Effect::ToggleOverview(fs.device)]
                } else {
                    Seq::empty()
                },
            ),
            Action::CloseWindow => (self, seq![Effect::Close(id)]),
            _ => match action.float_change() {
                Some(change) => (
                    StateView {
                        floating: self.floating.insert(id, self.float_after(id, change)),
                        ..self
                    },
                    seq![Effect::Reflow],
                ),
                None => (self, Seq::empty()),
            },
        }
    }

    /// An action on the tiling, or on the program. `at` is the layout of
    /// the monitor; only operations of the layout engine need it.
    pub open spec fn tiling_effects(
        self,
        subject: Option<WindowId>,
        device: String,
        action: Action,
        at: Option<MonitorLayout>,
    ) -> Seq<Effect> {
        match action {
            Action::Spawn(cmd) => seq![Effect::Spawn(cmd)],
            Action::Quit => seq![Effect::Quit],
            Action::CloseWindow => match subject {
                Some(id) => seq![Effect::Close(id)],
                None => Seq::empty(),
            },
            _ => match (action.op(), at) {
                (Some(op), Some(m)) => seq![
                    Effect::Tiling {
                        device,
                        op,
                        focused: subject,
                        prev: m.active_workspace_idx,
                        fullscreen: if op == TilingOp::ToggleFullscreen {
                            m.active().fullscreen_id
                        } else {
                            None
                        },
                    },
                ],
                _ => Seq::empty(),
            },
        }
    }

    /// A bound action. While management is suspended only quitting and
    /// restarting the transition make sense.
    pub open spec fn on_action(self, action: Action, cursor: Option<String>, layout: Layout) -> (
        StateView,
        Seq<Effect>,
    ) {
        let subject = self.subject(cursor, layout);
        let device = self.place_of_action(cursor, layout);
        if action is DoScreenTransition {
            (self, seq![Effect::BeginTransition])
        } else if self.suspended {
            (
                self,
                if action is Quit {
                    seq![Effect::Quit]
                } else {
                    Seq::empty()
                },
            )
        } else if device is None {
            (self, Seq::empty())
        } else if subject is Some && self.floating.contains_key(subject->0) && action.for_float() {
            self.on_float_action(subject->0, action, layout)
        } else if subject is Some && action is ToggleWindowFloating {
            (self, seq![Effect::FloatWindow(subject->0)])
        } else {
            (self, self.tiling_effects(subject, device->0, action, layout.at(device->0@)))
        }
    }

    /// The action can be carried out: a float has room where it goes,
    /// and the layout knows the monitor that an operation of its engine
    /// is for.
    pub open spec fn can_act(self, action: Action, cursor: Option<String>, layout: Layout) -> bool {
        let subject = self.subject(cursor, layout);
        let device = self.place_of_action(cursor, layout);
        if self.suspended || action is DoScreenTransition || device is None {
            true
        } else if subject is Some && self.floating.contains_key(subject->0) && action.for_float() {
            let fs = self.floating[subject->0];
            match (action.float_change(), work_of(self.monitors, fs.device@)) {
                (Some(change), Some(work)) => has_room(changed(fs.rect, change), work),
                _ => true,
            }
        } else {
            action.op() is Some ==> layout.at(device->0@) is Some
        }
    }

    /// Decorations follow the fullscreen window: the one that left
    /// fullscreen gets its own back, the one that entered it loses them.
    pub open spec fn redecorated(
        self,
        device: Seq<char>,
        op: TilingOp,
        fullscreen: Option<WindowId>,
        layout: Layout,
    ) -> (StateView, Seq<Effect>) {
        (
            match fullscreen {
                Some(id) => self.with_borders(id),
                None => self,
            },
            (match fullscreen {
                Some(id) => self.border_effects(id),
                None => Seq::empty(),
            }) + (if op == TilingOp::ToggleFullscreen {
                match fullscreen_on(layout, device) {
                    Some(id) => seq![Effect::StripBorders(id)],
                    None => Seq::empty(),
                }
            } else {
                Seq::empty()
            }),
        )
    }

    /// The engine ran an operation. After a change, decorations follow
    /// the fullscreen window; a workspace switch takes the focus along
    /// and slides.
    pub open spec fn on_tiled(
        self,
        device: String,
        op: TilingOp,
        focused: Option<WindowId>,
        prev: usize,
        fullscreen: Option<WindowId>,
        changed: bool,
        layout: Layout,
    ) -> (StateView, Seq<Effect>) {
        if !changed {
            (self, Seq::empty())
        } else {
            let (bordered, decoration) = self.redecorated(device@, op, fullscreen, layout);
            match op.target() {
                Some(idx) => {
                    let adopted = focus_of_workspace(layout, device@, idx);
                    (
                        StateView { focused: adopted, ..bordered },
                        decoration + (match adopted {
                            Some(id) => seq![Effect::UpdateFocusView(id)],
                            None => Seq::empty(),
                        }) + seq![Effect::SwitchView { device, prev, idx }, Effect::SyncFocus]
                            + self.overlay_effects(device, idx),
                    )
                },
                None => (
                    bordered,
                    decoration + (match focused {
                        Some(id) => seq![Effect::UpdateFocusView(id)],
                        None => Seq::empty(),
                    }) + seq![Effect::Reflow, Effect::SyncFocus],
                ),
            }
        }
    }

    /// The window's decorations are remembered before they are removed.
    pub open spec fn stripped(self, id: WindowId, style: u32) -> StateView {
        StateView {
            borderless: self.borderless.insert(
                id,
                decorations(style) | (if self.borderless.contains_key(id) {
                    self.borderless[id]
                } else {
                    0
                }),
            ),
            ..self
        }
    }
}

impl AppState {
    fn find_work(&self, device: &String) -> (work: Option<Rect>)
        ensures
            work == work_of(self@.monitors, device@),
    {
        match find_monitor(&self.monitors, device) {
            Some(i) => Some(self.monitors[i].work),
            None => None,
        }
    }

    fn find_subject(&self, cursor: &Option<String>, layout: &Layout) -> (id: Option<WindowId>)
        requires
            layout.wf(),
        ensures
            id == self@.subject(*cursor, *layout),
    {
        match self.focused {
            Some(id) => Some(id),
            None => match cursor {
                Some(d) => layout.focused_id(d),
                None => None,
            },
        }
    }

    fn find_place(
        &self,
        subject: Option<WindowId>,
        cursor: &Option<String>,
        layout: &Layout,
    ) -> (device: Option<String>)
        requires
            subject == self@.subject(*cursor, *layout),
        ensures
            device == self@.place_of_action(*cursor, *layout),
    {
        if let Some(id) = subject {
            if let Some(d) = layout.device_of(id) {
                return Some(d);
            }
        }
        match cursor {
            Some(d) => Some(d.clone()),
            None => None,
        }
    }

    /// Back into the tiling: the float returns to its monitor's layout.
    pub fn unfloat_window(&mut self, id: WindowId, fs: FloatState) -> (effects: Vec<Effect>)
        ensures
            (final(self)@, effects@) == old(self)@.unfloated(id, fs.device),
            old(self).wf() ==> final(self).wf(),
    {
        self.floating.remove(&id);
        proof {
            assert(self@ =~= old(self)@.unfloated(id, fs.device).0);
        }
        let mut effects: Vec<Effect> = Vec::new();
        effects.push(Effect::AddWindow { device: fs.device, id });
        effects.push(Effect::Reflow);
        effects.push(Effect::SyncFocus);
        effects
    }

    /// Out of the tiling: the window stays where it is and is placed
    /// freely. `removed_from` is the monitor whose layout held it, and
    /// `layout` the layout without it.
    pub fn float_window(
        &mut self,
        id: WindowId,
        removed_from: Option<String>,
        bounds: Option<Bounds>,
        layout: &Layout,
    ) -> (effects: Vec<Effect>)
        ensures
            match removed_from {
                Some(device) => (final(self)@, effects@) == old(self)@.floated(
                    id,
                    device,
                    bounds,
                    *layout,
                ),
                None => final(self)@ == old(self)@ && effects@.len() == 0,
            },
            old(self).wf() ==> final(self).wf(),
    {
        let mut effects: Vec<Effect> = Vec::new();
        if let Some(device) = removed_from {
            let workspace_idx: usize = match layout.active_idx(&device) {
                Some(i) => i,
                None => 0,
            };
            let rect: FloatRect = match bounds {
                Some(b) => b.scaled(),
                None => {
                    let mut work = self.find_work(&device);
                    if work.is_none() && self.monitors.len() > 0 {
                        work = Some(self.monitors[0].work);
                    }
                    place_default(work)
                },
            };
            self.floating.insert(id, FloatState { device, workspace_idx, rect });
            effects.push(Effect::SetTarget { id, rect });
            effects.push(Effect::Reflow);
        }
        effects
    }

    fn float_action(&mut self, id: WindowId, action: Action, layout: &Layout) -> (effects: Vec<
        Effect,
    >)
        requires
            old(self)@.floating.contains_key(id),
            match (
                action.float_change(),
                work_of(old(self)@.monitors, old(self)@.floating[id].device@),
            ) {
                (Some(change), Some(work)) => has_room(
                    changed(old(self)@.floating[id].rect, change),
                    work,
                ),
                _ => true,
            },
        ensures
            (final(self)@, effects@) == old(self)@.on_float_action(id, action, *layout),
            old(self).wf() ==> final(self).wf(),
    {
        let mut effects: Vec<Effect> = Vec::new();
        let ghost v = self@;
        match action {
            Action::ToggleWindowFloating => {
                if let Some(fs) = self.floating.remove(&id) {
                    effects = self.unfloat_window(id, fs);
                    proof {
                        assert(v.floating.remove(id).remove(id) =~= v.floating.remove(id));
                        assert(self@ =~= v.on_float_action(id, action, *layout).0);
                    }
                }
            },
            Action::ToggleOverview => {
                if let Some(fs) = self.floating.get(&id) {
                    if layout.monitor(&fs.device).is_some() {
                        effects.push(Effect::ToggleOverview(fs.device.clone()));
                    }
                }
            },
            Action::CloseWindow => {
                effects.push(Effect::Close(id));
            },
            _ => {
                if let Some(change) = action.change_of_float() {
                    if let Some(fs) = self.floating.remove(&id) {
                        let work = self.find_work(&fs.device);
                        let rect = adjust(fs.rect, change, work);
                        let after = FloatState {
                            device: fs.device,
                            workspace_idx: fs.workspace_idx,
                            rect,
                        };
                        self.floating.insert(id, after);
                        effects.push(Effect::Reflow);
                        proof {
                            assert(self@ =~= v.on_float_action(id, action, *layout).0);
                        }
                    }
                }
            },
        }
        effects
    }

    /// Can the action be carried out? It cannot where a float would have
    /// no room on its monitor, or the layout does not know the monitor
    /// that an operation of its engine is for.
    pub fn can_dispatch(&self, action: &Action, cursor: &Option<String>, layout: &Layout) -> (b:
        bool)
        requires
            layout.wf(),
        ensures
            b == self@.can_act(*action, *cursor, *layout),
    {
        if self.suspended || matches!(action, Action::DoScreenTransition) {
            return true;
        }
        let subject = self.find_subject(cursor, layout);
        match self.find_place(subject, cursor, layout) {
            Some(device) => {
                if let Some(id) = subject {
                    if let Some(fs) = self.floating.get(&id) {
                        if action.is_for_float() {
                            return match (action.change_of_float(), self.find_work(&fs.device)) {
                                (Some(change), Some(work)) => can_adjust(fs.rect, change, work),
                                _ => true,
                            };
                        }
                    }
                }
                action.tiling_op().is_none() || layout.monitor(&device).is_some()
            },
            None => true,
        }
    }

    /// Execute a bound action on the focused window, its workspace or
    /// the program.
    pub fn dispatch(&mut self, action: Action, cursor: Option<String>, layout: &Layout) -> (
        effects: Vec<Effect>)
        requires
            layout.wf(),
            old(self)@.can_act(action, cursor, *layout),
        ensures
            (final(self)@, effects@) == old(self)@.on_action(action, cursor, *layout),
            old(self).wf() ==> final(self).wf(),
            forall|id: WindowId, i: int|
                !old(self)@.suspended && old(self)@.focused == Some(id)
                    && !old(self)@.floating.contains_key(id) && #[trigger] is_home(*layout, id, i)
                    ==> runs_only_on(effects@, layout.monitors@[i].device),
    {
        let mut effects: Vec<Effect> = Vec::new();
        proof {
            let v = self@;
            assert forall|id: WindowId, i: int|
                !v.suspended && v.focused == Some(id) && !v.floating.contains_key(id)
                    && #[trigger] is_home(*layout, id, i) implies runs_only_on(
                v.on_action(action, cursor, *layout).1,
                layout.monitors@[i].device,
            ) by {
                let all = v.on_action(action, cursor, *layout).1;
                let home = layout.monitors@[i].device;
                assert forall|k: int|
                    0 <= k < all.len() implies (#[trigger] all[k] matches Effect::Tiling {
                    device,
                    ..
                } ==> device == home) by {
                    law_actions_run_where_the_focus_is(
                        v,
                        action,
                        cursor,
                        cursor,
                        *layout,
                        id,
                        i,
                        k,
                    );
                }
            }
        }
        if matches!(action, Action::DoScreenTransition) {
            effects.push(Effect::BeginTransition);
            return effects;
        }
        if self.suspended {
            if matches!(action, Action::Quit) {
                effects.push(Effect::Quit);
            }
            return effects;
        }
        let subject = self.find_subject(&cursor, layout);
        let device = match self.find_place(subject, &cursor, layout) {
            Some(d) => d,
            None => {
                return effects;
            },
        };
        if let Some(id) = subject {
            if self.floating.contains_key(&id) && action.is_for_float() {
                return self.float_action(id, action, layout);
            }
            if matches!(action, Action::ToggleWindowFloating) {
                effects.push(Effect::FloatWindow(id));
                return effects;
            }
        }
        match action {
            Action::Spawn(cmd) => {
                effects.push(Effect::Spawn(cmd));
            },
            Action::Quit => {
                effects.push(Effect::Quit);
            },
            Action::CloseWindow => {
                if let Some(id) = subject {
                    effects.push(Effect::Close(id));
                }
            },
            _ => {
                if let Some(op) = action.tiling_op() {
                    if let Some(m) = layout.monitor(&device) {
                        let fullscreen: Option<WindowId> = if op == TilingOp::ToggleFullscreen {
                            m.active_workspace().fullscreen_id
                        } else {
                            None
                        };
                        let prev: usize = m.active_workspace_idx;
                        effects.push(
                            Effect::Tiling { device, op, focused: subject, prev, fullscreen },
                        );
                    }
                }
            },
        }
        effects
    }

    fn redecorate(
        &mut self,
        device: &String,
        op: TilingOp,
        fullscreen: Option<WindowId>,
        layout: &Layout,
    ) -> (effects: Vec<Effect>)
        requires
            layout.wf(),
        ensures
            (final(self)@, effects@) == old(self)@.redecorated(
                device@,
                op,
                fullscreen,
                *layout,
            ),
            final(self)@.monitors == old(self)@.monitors,
            old(self).wf() ==> final(self).wf(),
    {
        let mut effects: Vec<Effect> = Vec::new();
        if let Some(id) = fullscreen {
            let mut borders = self.restore_borders(id);
            effects.append(&mut borders);
        }
        if op == TilingOp::ToggleFullscreen {
            if let Some(m) = layout.monitor(&device) {
                if let Some(id) = m.active_workspace().fullscreen_id {
                    effects.push(Effect::StripBorders(id));
                }
            }
        }
        effects
    }

    fn focus_workspace(&mut self, device: &String, idx: usize, layout: &Layout) -> (effects: Vec<
        Effect,
    >)
        ensures
            final(self)@ == (StateView {
                focused: focus_of_workspace(*layout, device@, idx),
                ..old(self)@
            }),
            effects@ == match focus_of_workspace(*layout, device@, idx) {
                Some(id) => seq![Effect::UpdateFocusView(id)],
                None => Seq::<Effect>::empty(),
            },
            old(self).wf() ==> final(self).wf(),
    {
        let mut effects: Vec<Effect> = Vec::new();
        let mut adopted: Option<WindowId> = None;
        if let Some(m) = layout.monitor(device) {
            if idx < m.workspaces.len() {
                adopted = m.workspaces[idx].focused;
            }
        }
        self.focused = adopted;
        if let Some(id) = adopted {
            effects.push(Effect::UpdateFocusView(id));
        }
        effects
    }

    /// The layout engine ran an operation; `changed` is its answer, and
    /// `layout` the layout after it. `prev` is the workspace that was
    /// shown before, `fullscreen` the window that was in fullscreen
    /// before the operation toggled it.
    pub fn tiling_done(
        &mut self,
        device: String,
        op: TilingOp,
        focused: Option<WindowId>,
        prev: usize,
        fullscreen: Option<WindowId>,
        changed: bool,
        layout: &Layout,
    ) -> (effects: Vec<Effect>)
        requires
            layout.wf(),
            op.target() matches Some(idx) ==> idx < usize::MAX,
        ensures
            (final(self)@, effects@) == old(self)@.on_tiled(
                device,
                op,
                focused,
                prev,
                fullscreen,
                changed,
                *layout,
            ),
            old(self).wf() ==> final(self).wf(),
    {
        let mut effects: Vec<Effect> = Vec::new();
        if !changed {
            return effects;
        }
        effects = self.redecorate(&device, op, fullscreen, layout);
        match op.workspace() {
            Some(idx) => {
                let mut view = self.focus_workspace(&device, idx, layout);
                effects.append(&mut view);
                let mut overlay = self.show_workspace_overlay(&device, idx);
                effects.push(Effect::SwitchView { device, prev, idx });
                effects.push(Effect::SyncFocus);
                effects.append(&mut overlay);
            },
            None => {
                if let Some(id) = focused {
                    effects.push(Effect::UpdateFocusView(id));
                }
                effects.push(Effect::Reflow);
                effects.push(Effect::SyncFocus);
            },
        }
        proof {
            assert((self@, effects@) =~= old(self)@.on_tiled(
                device,
                op,
                focused,
                prev,
                fullscreen,
                changed,
                *layout,
            ));
        }
        effects
    }

    /// Remove the decorations of a window that goes fullscreen, and
    /// remember them. `style` is its style, where it is alive.
    pub fn strip_borders(&mut self, id: WindowId, style: Option<u32>) -> (effects: Vec<Effect>)
        ensures
            match style {
                Some(s) => final(self)@ == old(self)@.stripped(id, s) && effects@ == seq![
                    Effect::RemoveBorders(id),
                    Effect::Raise(id),
                ],
                None => final(self)@ == old(self)@ && effects@.len() == 0,
            },
            old(self).wf() ==> final(self).wf(),
    {
        let mut effects: Vec<Effect> = Vec::new();
        if let Some(s) = style {
            let removed: u32 = match self.borderless.get(&id) {
                Some(r) => *r,
                None => 0,
            };
            self.borderless.insert(id, decorations_of(s) | removed);
            effects.push(Effect::RemoveBorders(id));
            effects.push(Effect::Raise(id));
        }
        effects
    }
}

} // verus!

//! What bound actions lead to: on which monitor, about which window, by
//! which operation.

use crate::dispatch::Action;
use crate::effect::{DirH, DirV, Edge, Effect, TilingOp};
use crate::floating::{adjusted, default_place, has_room, FloatChange, SizeChange};
use crate::geometry::{Bounds, WindowId, SUBPIXEL};
use crate::laws::floats::law_default_place_is_centered;
use crate::laws::lookup::{
    is_called, is_home, is_homeless, is_known, is_unknown, law_layouts_are_found_by_name,
    law_monitors_are_found_by_name, law_windows_are_found_in_the_layout, none_called,
};
use crate::layout::Layout;
use crate::placement::{bare, decorations, law_strip_is_final};
use crate::state::StateView;
use vstd::prelude::*;

verus! {

/// The window that an action is about: the one in the foreground, or,
/// where none is, the focus of the workspace shown on the monitor under
/// the pointer.
pub open spec fn is_subject(
    v: StateView,
    cursor: Option<String>,
    layout: Layout,
    subject: Option<WindowId>,
) -> bool {
    match (v.focused, cursor) {
        (Some(id), _) => subject == Some(id),
        (None, None) => subject is None,
        (None, Some(d)) => {
            &&& is_unknown(layout, d@) ==> subject is None
            &&& forall|i: int| #[trigger]
                is_known(layout, d@, i) ==> {
                    let m = layout.monitors@[i];
                    subject == m.workspaces@[m.active_workspace_idx as int].focused
                }
        },
    }
}

/// The monitor that an action is about: the first that has its window,
/// or, where none has it, the one under the pointer.
pub open spec fn is_place(
    cursor: Option<String>,
    layout: Layout,
    subject: Option<WindowId>,
    device: String,
) -> bool {
    ||| exists|i: int|
        subject is Some && #[trigger] is_home(layout, subject->0, i) && device
            == layout.monitors@[i].device
    ||| (subject is Some ==> is_homeless(layout, subject->0)) && cursor == Some(device)
}

/// An action and what it is about: the window, and the monitor, which is
/// number `number` of the layout.
pub struct Scene {
    pub v: StateView,
    pub cursor: Option<String>,
    pub layout: Layout,
    pub subject: Option<WindowId>,
    pub device: String,
    pub number: int,
}

impl Scene {
    /// The state is not suspended, and an action is about this window
    /// and this monitor.
    pub open spec fn is_set(self) -> bool {
        &&& !self.v.suspended
        &&& is_subject(self.v, self.cursor, self.layout, self.subject)
        &&& is_place(self.cursor, self.layout, self.subject, self.device)
        &&& is_known(self.layout, self.device@, self.number)
    }

    /// The state and the effects that the action leads to.
    pub open spec fn after(self, action: Action) -> (StateView, Seq<Effect>) {
        self.v.on_action(action, self.cursor, self.layout)
    }

    /// The action runs the operation on the monitor and does nothing
    /// else.
    pub open spec fn runs(self, action: Action, op: TilingOp) -> bool {
        let m = self.layout.monitors@[self.number];
        self.after(action) == (
            self.v,
            seq![
                Effect::Tiling {
                    device: self.device,
                    op,
                    focused: self.subject,
                    prev: m.active_workspace_idx,
                    fullscreen: if action is ToggleWindowedFullscreen {
                        m.workspaces@[m.active_workspace_idx as int].fullscreen_id
                    } else {
                        None
                    },
                },
            ],
        )
    }
}

/// The index of the workspace or column that has this number: they are
/// numbered from one.
pub open spec fn numbers(n: u32, idx: usize) -> bool {
    (n > 0 ==> idx == n - 1) && (n == 0 ==> idx == 0)
}

proof fn lemma_subject(
    v: StateView,
    cursor: Option<String>,
    layout: Layout,
    subject: Option<WindowId>,
)
    requires
        is_subject(v, cursor, layout, subject),
    ensures
        v.subject(cursor, layout) == subject,
{
    if v.focused is None && cursor is Some {
        let d = cursor->0@;
        law_layouts_are_found_by_name(layout, d, 0);
        if layout.at(d) is Some {
            let i = choose|i: int| is_known(layout, d, i);
            law_layouts_are_found_by_name(layout, d, i);
        }
    }
}

proof fn lemma_place(
    v: StateView,
    cursor: Option<String>,
    layout: Layout,
    subject: Option<WindowId>,
    device: String,
)
    requires
        is_subject(v, cursor, layout, subject),
        is_place(cursor, layout, subject, device),
    ensures
        v.subject(cursor, layout) == subject,
        v.place_of_action(cursor, layout) == Some(device),
{
    lemma_subject(v, cursor, layout, subject);
    if let Some(id) = subject {
        law_windows_are_found_in_the_layout(layout, id, 0);
        if exists|i: int| is_home(layout, id, i) {
            let i = choose|i: int|
                #[trigger] is_home(layout, id, i) && (is_homeless(layout, id) || device
                    == layout.monitors@[i].device);
            law_windows_are_found_in_the_layout(layout, id, i);
        }
    }
}

proof fn lemma_scene(at: Scene)
    requires
        at.is_set(),
    ensures
        at.v.subject(at.cursor, at.layout) == at.subject,
        at.v.place_of_action(at.cursor, at.layout) == Some(at.device),
        at.layout.at(at.device@) == Some(at.layout.monitors@[at.number]),
{
    lemma_place(at.v, at.cursor, at.layout, at.subject, at.device);
    law_layouts_are_found_by_name(at.layout, at.device@, at.number);
}

/// While a tiled window is focused, every operation that an action leads
/// to is run on the first monitor that has the window, and is about the
/// window. Where the pointer is makes no difference to any action.
pub proof fn law_actions_run_where_the_focus_is(
    v: StateView,
    action: Action,
    cursor: Option<String>,
    other: Option<String>,
    layout: Layout,
    id: WindowId,
    i: int,
    k: int,
)
    requires
        !v.suspended,
        v.focused == Some(id),
        !v.floating.contains_key(id),
        is_home(layout, id, i),
    ensures
        ({
            let effects = v.on_action(action, cursor, layout).1;
            0 <= k < effects.len() ==> (effects[k] matches Effect::Tiling { device, focused, .. }
                ==> device == layout.monitors@[i].device && focused == Some(id))
        }),
        v.on_action(action, cursor, layout) == v.on_action(action, other, layout),
        v.can_act(action, cursor, layout) == v.can_act(action, other, layout),
{
    law_windows_are_found_in_the_layout(layout, id, i);
}

/// Where no layout has the focused window, or none is focused and the
/// workspace under the pointer is empty, every operation that an action
/// leads to is run on the monitor under the pointer; without a pointer
/// on any monitor nothing is run.
pub proof fn law_actions_fall_back_to_the_pointer(
    v: StateView,
    action: Action,
    cursor: Option<String>,
    layout: Layout,
    subject: Option<WindowId>,
    k: int,
)
    requires
        !v.suspended,
        is_subject(v, cursor, layout, subject),
        subject is Some ==> is_homeless(layout, subject->0),
    ensures
        ({
            let effects = v.on_action(action, cursor, layout).1;
            0 <= k < effects.len() ==> (effects[k] matches Effect::Tiling { device, focused, .. }
                ==> cursor == Some(device) && focused == subject)
        }),
        cursor is None && !(action is DoScreenTransition) ==> v.on_action(action, cursor, layout)
            == (v, Seq::<Effect>::empty()),
        cursor is None ==> v.can_act(action, cursor, layout),
{
    lemma_subject(v, cursor, layout, subject);
    if let Some(id) = subject {
        law_windows_are_found_in_the_layout(layout, id, 0);
    }
}

/// Navigation, stacking, fullscreen and workspace actions run their
/// operations, each in its own direction, whether or not the window is
/// floating. Columns and workspaces are numbered from one.
pub proof fn law_tiling_actions_run_their_operations(at: Scene, n: u32, idx: usize)
    requires
        at.is_set(),
        numbers(n, idx),
    ensures
        at.runs(Action::FocusColumnLeft, TilingOp::FocusColumn(DirH::Left)),
        at.runs(Action::FocusColumnRight, TilingOp::FocusColumn(DirH::Right)),
        at.runs(Action::FocusWindowDown, TilingOp::FocusTile(DirV::Down)),
        at.runs(Action::FocusWindowUp, TilingOp::FocusTile(DirV::Up)),
        at.runs(Action::MoveWindowToColumnLeft, TilingOp::MoveTileAcross(DirH::Left)),
        at.runs(Action::MoveWindowToColumnRight, TilingOp::MoveTileAcross(DirH::Right)),
        at.runs(Action::ConsumeOrExpelWindowLeft, TilingOp::ConsumeOrExpel(DirH::Left)),
        at.runs(Action::ConsumeOrExpelWindowRight, TilingOp::ConsumeOrExpel(DirH::Right)),
        at.runs(Action::ConsumeWindowIntoColumn, TilingOp::ConsumeIntoColumn),
        at.runs(Action::ExpelWindowFromColumn, TilingOp::ExpelFromColumn),
        at.runs(Action::FocusColumnFirst, TilingOp::FocusColumnEdge(Edge::First)),
        at.runs(Action::FocusColumnLast, TilingOp::FocusColumnEdge(Edge::Last)),
        at.runs(Action::FocusColumnIndex(n), TilingOp::FocusColumnIndex(idx)),
        at.runs(Action::SwitchPresetColumnWidth, TilingOp::CycleColumnWidth),
        at.runs(Action::ToggleFullWidth, TilingOp::ToggleFullWidth),
        at.runs(Action::MaximizeColumn, TilingOp::ToggleMaximized),
        at.runs(Action::ToggleWindowedFullscreen, TilingOp::ToggleFullscreen),
        at.runs(Action::FocusWorkspace(n), TilingOp::SwitchWorkspace(idx)),
        at.runs(Action::WorkspaceSwitch(n), TilingOp::SwitchWorkspace(idx)),
        at.runs(Action::MoveWindowToWorkspace(n), TilingOp::MoveWindowToWorkspace(idx)),
        at.runs(Action::MoveColumnToWorkspace(n), TilingOp::MoveColumnToWorkspace(idx)),
{
    lemma_scene(at);
}

/// Moving and resizing run their operations on the tiling unless a float
/// is focused. A width without a value goes through the presets, a
/// height without one is nothing.
pub proof fn law_moves_and_sizes_of_tiles(at: Scene, c: SizeChange)
    requires
        at.is_set(),
        at.subject is Some ==> !at.v.floating.contains_key(at.subject->0),
    ensures
        at.runs(Action::MoveColumnLeft, TilingOp::MoveColumn(DirH::Left)),
        at.runs(Action::MoveColumnRight, TilingOp::MoveColumn(DirH::Right)),
        at.runs(Action::MoveWindowDown, TilingOp::MoveTile(DirV::Down)),
        at.runs(Action::MoveWindowUp, TilingOp::MoveTile(DirV::Up)),
        at.runs(Action::SetColumnWidth(Some(c)), TilingOp::SetColumnWidth(c)),
        at.runs(Action::SetColumnWidth(None), TilingOp::CycleColumnWidth),
        at.runs(Action::SetWindowHeight(Some(c)), TilingOp::SetWindowHeight(c)),
        at.after(Action::SetWindowHeight(None)) == (at.v, Seq::<Effect>::empty()),
{
    lemma_scene(at);
}

/// Quitting and launching programs work wherever there is a monitor to
/// act on, float or not. Closing and floating are about the window in
/// the same way whether or not the layout knows the monitor.
pub proof fn law_actions_without_an_operation(
    v: StateView,
    cursor: Option<String>,
    layout: Layout,
    subject: Option<WindowId>,
    device: String,
    cmd: String,
)
    requires
        !v.suspended,
        is_subject(v, cursor, layout, subject),
        is_place(cursor, layout, subject, device),
    ensures
        v.can_act(Action::Quit, cursor, layout),
        v.can_act(Action::Spawn(cmd), cursor, layout),
        v.on_action(Action::Quit, cursor, layout) == (v, seq![Effect::Quit]),
        v.on_action(Action::Spawn(cmd), cursor, layout) == (v, seq![Effect::Spawn(cmd)]),
        v.on_action(Action::CloseWindow, cursor, layout) == (
            v,
            match subject {
                Some(id) => seq![Effect::Close(id)],
                None => Seq::empty(),
            },
        ),
        (subject is Some ==> !v.floating.contains_key(subject->0)) ==> {
            &&& v.on_action(Action::ToggleWindowFloating, cursor, layout) == (
                v,
                match subject {
                    Some(id) => seq![Effect::FloatWindow(id)],
                    None => Seq::empty(),
                },
            )
            &&& v.on_action(Action::ToggleOverview, cursor, layout) == (v, Seq::<Effect>::empty())
            &&& v.on_action(Action::SetWindowHeight(None), cursor, layout) == (
                v,
                Seq::<Effect>::empty(),
            )
        },
{
    lemma_place(v, cursor, layout, subject, device);
}

/// Every action can be carried out where the layout knows the monitor
/// and no float is focused; where the layout does not know it, exactly
/// those that run no operation.
pub proof fn law_tiling_actions_can_run(
    v: StateView,
    action: Action,
    cursor: Option<String>,
    layout: Layout,
    subject: Option<WindowId>,
    device: String,
)
    requires
        is_subject(v, cursor, layout, subject),
        is_place(cursor, layout, subject, device),
        subject is Some ==> !v.floating.contains_key(subject->0),
    ensures
        !is_unknown(layout, device@) ==> v.can_act(action, cursor, layout),
        is_unknown(layout, device@) && !v.suspended ==> (v.can_act(action, cursor, layout) <==> {
            ||| action is Spawn
            ||| action is Quit
            ||| action is CloseWindow
            ||| action is ToggleWindowFloating
            ||| action is ToggleOverview
            ||| action is DoScreenTransition
            ||| action matches Action::SetWindowHeight(None)
        }),
{
    lemma_place(v, cursor, layout, subject, device);
    law_layouts_are_found_by_name(layout, device@, 0);
}

/// The screen is covered whatever is focused, pointed at or suspended.
pub proof fn law_the_screen_can_always_be_covered(
    v: StateView,
    cursor: Option<String>,
    layout: Layout,
)
    ensures
        v.can_act(Action::DoScreenTransition, cursor, layout),
        v.on_action(Action::DoScreenTransition, cursor, layout) == (
            v,
            seq![Effect::BeginTransition],
        ),
{
}

/// Moving or resizing a focused float changes that float's rectangle
/// only, by the change in the action's own direction, within the reach
/// of the float's own monitor. All is tiled anew.
pub proof fn law_actions_move_the_focused_float(
    v: StateView,
    action: Action,
    change: FloatChange,
    cursor: Option<String>,
    layout: Layout,
    id: WindowId,
    device: String,
    m: int,
    other: WindowId,
)
    requires
        !v.suspended,
        is_subject(v, cursor, layout, Some(id)),
        is_place(cursor, layout, Some(id), device),
        v.floating.contains_key(id),
        match action {
            Action::MoveColumnLeft => change == FloatChange::Left,
            Action::MoveColumnRight => change == FloatChange::Right,
            Action::MoveWindowUp => change == FloatChange::Up,
            Action::MoveWindowDown => change == FloatChange::Down,
            Action::SetColumnWidth(Some(c)) => change == FloatChange::Width(c),
            Action::SetWindowHeight(Some(c)) => change == FloatChange::Height(c),
            _ => false,
        },
        is_called(v.monitors, v.floating[id].device@, m) || none_called(
            v.monitors,
            v.floating[id].device@,
        ),
    ensures
        ({
            let (w, effects) = v.on_action(action, cursor, layout);
            let before = v.floating[id];
            let work = if is_called(v.monitors, before.device@, m) {
                Some(v.monitors[m].work)
            } else {
                None
            };
            &&& effects == seq![Effect::Reflow]
            &&& w.floating[id].rect == adjusted(before.rect, change, work)
            &&& w.floating[id].device == before.device
            &&& w.floating[id].workspace_idx == before.workspace_idx
            &&& w.floating.dom() == v.floating.dom()
            &&& other != id && v.floating.contains_key(other) ==> w.floating[other]
                == v.floating[other]
            &&& StateView { floating: v.floating, ..w } == v
            &&& v.can_act(action, cursor, layout) <==> (work matches Some(a) ==> has_room(
                adjusted(before.rect, change, None),
                a,
            ))
        }),
{
    lemma_place(v, cursor, layout, Some(id), device);
    law_monitors_are_found_by_name(v.monitors, v.floating[id].device@, m);
    let w = v.on_action(action, cursor, layout).0;
    assert(w.floating.dom() =~= v.floating.dom());
    assert((StateView { floating: v.floating, ..w }) =~= v);
}

/// What else is about the focused float: it goes back to its own
/// monitor's tiling, that monitor's overview is toggled, or it is
/// closed. Resizing without a value does nothing to it.
pub proof fn law_actions_on_the_focused_float(
    v: StateView,
    cursor: Option<String>,
    layout: Layout,
    id: WindowId,
    device: String,
    other: WindowId,
)
    requires
        !v.suspended,
        is_subject(v, cursor, layout, Some(id)),
        is_place(cursor, layout, Some(id), device),
        v.floating.contains_key(id),
    ensures
        ({
            let (w, effects) = v.on_action(Action::ToggleWindowFloating, cursor, layout);
            let home = v.floating[id].device;
            &&& effects == seq![
                Effect::AddWindow { device: home, id },
                Effect::Reflow,
                Effect::SyncFocus,
            ]
            &&& !w.floating.contains_key(id)
            &&& other != id ==> (w.floating.contains_key(other) <==> v.floating.contains_key(
                other,
            ))
            &&& other != id && v.floating.contains_key(other) ==> w.floating[other]
                == v.floating[other]
            &&& StateView { floating: v.floating, ..w } == v
            &&& v.on_action(Action::ToggleOverview, cursor, layout) == (
                v,
                if is_unknown(layout, home@) {
                    Seq::empty()
                } else {
                    seq![Effect::ToggleOverview(home)]
                },
            )
        }),
        v.on_action(Action::CloseWindow, cursor, layout) == (v, seq![Effect::Close(id)]),
        v.on_action(Action::SetColumnWidth(None), cursor, layout) == (v, Seq::<Effect>::empty()),
        v.on_action(Action::SetWindowHeight(None), cursor, layout) == (v, Seq::<Effect>::empty()),
        v.can_act(Action::ToggleWindowFloating, cursor, layout),
        v.can_act(Action::ToggleOverview, cursor, layout),
        v.can_act(Action::CloseWindow, cursor, layout),
        v.can_act(Action::SetColumnWidth(None), cursor, layout),
        v.can_act(Action::SetWindowHeight(None), cursor, layout),
{
    lemma_place(v, cursor, layout, Some(id), device);
    law_layouts_are_found_by_name(layout, v.floating[id].device@, 0);
    let w = v.on_action(Action::ToggleWindowFloating, cursor, layout).0;
    assert((StateView { floating: v.floating, ..w }) =~= v);
}

/// A window taken out of the tiling floats where it was seen, on the
/// workspace that its monitor shows; where it could not be seen, in the
/// middle of its monitor, or of the first one. It is sent there, and the
/// gap it leaves is closed.
pub proof fn law_floats_start_where_they_are(
    v: StateView,
    id: WindowId,
    device: String,
    bounds: Option<Bounds>,
    layout: Layout,
    other: WindowId,
    m: int,
    j: int,
)
    ensures
        ({
            let (w, effects) = v.floated(id, device, bounds, layout);
            let fs = w.floating[id];
            &&& w.floating.contains_key(id)
            &&& fs.device == device
            &&& bounds matches Some(b) ==> fs.rect.x == b.x * SUBPIXEL && fs.rect.y == b.y
                * SUBPIXEL && fs.rect.w == b.w * SUBPIXEL && fs.rect.h == b.h * SUBPIXEL
            &&& bounds is None && is_called(v.monitors, device@, m) ==> 2 * (fs.rect.x
                - v.monitors[m].work.left * SUBPIXEL) + fs.rect.w == (v.monitors[m].work.right
                - v.monitors[m].work.left) * SUBPIXEL && 2 * (fs.rect.y - v.monitors[m].work.top
                * SUBPIXEL) + fs.rect.h == (v.monitors[m].work.bottom - v.monitors[m].work.top)
                * SUBPIXEL
            &&& bounds is None && none_called(v.monitors, device@) && v.monitors.len() > 0
                ==> fs.rect == default_place(Some(v.monitors[0].work))
            &&& bounds is None && v.monitors.len() == 0 ==> fs.rect
                == default_place(None)
            &&& is_known(layout, device@, j) ==> fs.workspace_idx
                == layout.monitors@[j].active_workspace_idx
            &&& is_unknown(layout, device@) ==> fs.workspace_idx == 0
            &&& effects == seq![Effect::SetTarget { id, rect: fs.rect }, Effect::Reflow]
            &&& other != id ==> (w.floating.contains_key(other) <==> v.floating.contains_key(
                other,
            ))
            &&& other != id && v.floating.contains_key(other) ==> w.floating[other]
                == v.floating[other]
            &&& StateView { floating: v.floating, ..w } == v
        }),
{
    law_layouts_are_found_by_name(layout, device@, j);
    law_monitors_are_found_by_name(v.monitors, device@, m);
    let w = v.floated(id, device, bounds, layout).0;
    if bounds is None && is_called(v.monitors, device@, m) {
        law_default_place_is_centered(v.monitors[m].work);
    }
    assert((StateView { floating: v.floating, ..w }) =~= v);
}

/// The indicator that a switch flashes: the monitor's own, with the
/// workspace's number, counted from one.
pub open spec fn is_flash(
    v: StateView,
    device: String,
    idx: usize,
    m: int,
    flash: Seq<Effect>,
) -> bool {
    &&& v.has_overlay && is_called(v.monitors, device@, m) ==> flash == seq![
        Effect::ShowWorkspace {
            device: v.monitors[m].device,
            number: (idx + 1) as usize,
        },
    ]
    &&& !v.has_overlay || none_called(v.monitors, device@) ==> flash.len() == 0
}

/// An operation that switched to a workspace takes the focus to the
/// window focused there, or to none, scrolls to it, shows the workspace
/// from the one shown before, and flashes its number. Nothing else
/// changes.
pub proof fn law_switches_take_the_focus_along(
    v: StateView,
    device: String,
    op: TilingOp,
    focused: Option<WindowId>,
    prev: usize,
    idx: usize,
    layout: Layout,
    j: int,
    m: int,
)
    requires
        op == TilingOp::SwitchWorkspace(idx) || op == TilingOp::MoveWindowToWorkspace(idx) || op
            == TilingOp::MoveColumnToWorkspace(idx),
        is_known(layout, device@, j) || is_unknown(layout, device@),
        is_called(v.monitors, device@, m) || none_called(v.monitors, device@),
    ensures
        ({
            let (w, effects) = v.on_tiled(device, op, focused, prev, None, true, layout);
            let spaces = layout.monitors@[j].workspaces@;
            let now = if is_known(layout, device@, j) && idx < spaces.len() {
                spaces[idx as int].focused
            } else {
                None
            };
            let scroll = match now {
                Some(id) => seq![Effect::UpdateFocusView(id)],
                None => Seq::<Effect>::empty(),
            };
            let n = scroll.len() as int;
            &&& w == (StateView { focused: now, ..v })
            &&& effects.take(n) == scroll
            &&& effects[n] == (Effect::SwitchView { device, prev, idx })
            &&& effects[n + 1] == Effect::SyncFocus
            &&& is_flash(v, device, idx, m, effects.skip(n + 2))
        }),
{
    law_layouts_are_found_by_name(layout, device@, j);
    law_monitors_are_found_by_name(v.monitors, device@, m);
    let (w, effects) = v.on_tiled(device, op, focused, prev, None, true, layout);
    let spaces = layout.monitors@[j].workspaces@;
    let now = if is_known(layout, device@, j) && idx < spaces.len() {
        spaces[idx as int].focused
    } else {
        None
    };
    let scroll = match now {
        Some(id) => seq![Effect::UpdateFocusView(id)],
        None => Seq::<Effect>::empty(),
    };
    let n = scroll.len() as int;
    assert(effects.take(n) =~= scroll);
    assert(effects.skip(n + 2) =~= v.overlay_effects(device, idx));
    assert(w =~= (StateView { focused: now, ..v }));
}

/// An operation that changed anything else is scrolled to and tiled, and
/// the state stays. One that changed nothing is over.
pub proof fn law_other_operations_are_tiled(
    v: StateView,
    device: String,
    op: TilingOp,
    focused: Option<WindowId>,
    prev: usize,
    fullscreen: Option<WindowId>,
    layout: Layout,
)
    ensures
        !(op is SwitchWorkspace) && !(op is MoveWindowToWorkspace) && !(op is MoveColumnToWorkspace)
            && !(op is ToggleFullscreen) ==> v.on_tiled(
            device,
            op,
            focused,
            prev,
            None,
            true,
            layout,
        ) == (
            v,
            match focused {
                Some(id) => seq![Effect::UpdateFocusView(id), Effect::Reflow, Effect::SyncFocus],
                None => seq![Effect::Reflow, Effect::SyncFocus],
            },
        ),
        v.on_tiled(device, op, focused, prev, fullscreen, false, layout) == (
            v,
            Seq::<Effect>::empty(),
        ),
{
    let effects = v.on_tiled(device, op, focused, prev, None, true, layout).1;
    match focused {
        Some(id) => {
            assert(effects =~= effects.take(0) + effects);
            if !(op is SwitchWorkspace) && !(op is MoveWindowToWorkspace) && !(
            op is MoveColumnToWorkspace) && !(op is ToggleFullscreen) {
                assert(effects =~= seq![
                    Effect::UpdateFocusView(id),
                    Effect::Reflow,
                    Effect::SyncFocus,
                ]);
            }
        },
        None => {
            if !(op is SwitchWorkspace) && !(op is MoveWindowToWorkspace) && !(
            op is MoveColumnToWorkspace) && !(op is ToggleFullscreen) {
                assert(effects =~= seq![Effect::Reflow, Effect::SyncFocus]);
            }
        },
    }
}

/// After fullscreen was toggled, the window that was in it gets the
/// decorations back that were taken from it, and the window that is in
/// it now loses its own, in this order. No other window's decorations
/// are touched.
pub proof fn law_decorations_follow_fullscreen(
    v: StateView,
    device: String,
    focused: Option<WindowId>,
    prev: usize,
    was: Option<WindowId>,
    layout: Layout,
    j: int,
    id: WindowId,
)
    requires
        is_known(layout, device@, j),
    ensures
        ({
            let (w, effects) = v.on_tiled(
                device,
                TilingOp::ToggleFullscreen,
                focused,
                prev,
                was,
                true,
                layout,
            );
            let m = layout.monitors@[j];
            let back = if was is Some && v.borderless.contains_key(was->0) {
                seq![Effect::RestoreBorders { id: was->0, removed: v.borderless[was->0] }]
            } else {
                Seq::<Effect>::empty()
            };
            let strip = match m.workspaces@[m.active_workspace_idx as int].fullscreen_id {
                Some(now) => seq![Effect::StripBorders(now)],
                None => Seq::<Effect>::empty(),
            };
            let scroll = match focused {
                Some(f) => seq![Effect::UpdateFocusView(f)],
                None => Seq::<Effect>::empty(),
            };
            &&& effects == back + strip + scroll + seq![Effect::Reflow, Effect::SyncFocus]
            &&& was == Some(id) ==> !w.borderless.contains_key(id)
            &&& was != Some(id) ==> (w.borderless.contains_key(id) <==> v.borderless.contains_key(
                id,
            ))
            &&& was != Some(id) && v.borderless.contains_key(id) ==> w.borderless[id]
                == v.borderless[id]
            &&& StateView { borderless: v.borderless, ..w } == v
        }),
{
    law_layouts_are_found_by_name(layout, device@, j);
    let (w, effects) = v.on_tiled(
        device,
        TilingOp::ToggleFullscreen,
        focused,
        prev,
        was,
        true,
        layout,
    );
    let m = layout.monitors@[j];
    let back = if was is Some && v.borderless.contains_key(was->0) {
        seq![Effect::RestoreBorders { id: was->0, removed: v.borderless[was->0] }]
    } else {
        Seq::<Effect>::empty()
    };
    let strip = match m.workspaces@[m.active_workspace_idx as int].fullscreen_id {
        Some(now) => seq![Effect::StripBorders(now)],
        None => Seq::<Effect>::empty(),
    };
    let scroll = match focused {
        Some(f) => seq![Effect::UpdateFocusView(f)],
        None => Seq::<Effect>::empty(),
    };
    assert(effects =~= back + strip + scroll + seq![Effect::Reflow, Effect::SyncFocus]);
    assert((StateView { borderless: v.borderless, ..w }) =~= v);
}

/// Stripping a window twice forgets nothing: what was taken the first
/// time is still on record. No other window's record is touched.
pub proof fn law_stripping_forgets_nothing(
    v: StateView,
    id: WindowId,
    style: u32,
    other: WindowId,
)
    ensures
        v.stripped(id, style).stripped(id, bare(style)) == v.stripped(id, style),
        v.stripped(id, style).borderless.contains_key(id),
        decorations(style) & !v.stripped(id, style).borderless[id] == 0,
        v.borderless.contains_key(id) ==> v.borderless[id] & !v.stripped(id, style).borderless[id]
            == 0,
        other != id ==> v.stripped(id, style).borderless.contains_key(other)
            == v.borderless.contains_key(other),
        other != id && v.borderless.contains_key(other) ==> v.stripped(id, style).borderless[other]
            == v.borderless[other],
{
    law_strip_is_final(style);
    let w = v.stripped(id, style);
    let d = decorations(style);
    let o = if v.borderless.contains_key(id) {
        v.borderless[id]
    } else {
        0
    };
    let r = d | o;
    assert(0u32 | r == r) by (bit_vector);
    assert(d & !(d | o) == 0) by (bit_vector);
    assert(o & !(d | o) == 0) by (bit_vector);
    assert(w.stripped(id, bare(style)).borderless =~= w.borderless);
    assert(w.stripped(id, bare(style)) =~= w);
}

} // verus!

//! What the decisions ask the shell to do. A handler returns a list of
//! effects; the shell carries them out in order.
//!
//! Some effects are requests: the shell gathers what the named function
//! needs to know, calls it, and carries out what it returns before it
//! goes on with the list. Effects on a window pass over a handle that is
//! dead by the time they are carried out.

use crate::floating::SizeChange;
use crate::geometry::{Bounds, FloatRect, TileRect, WindowId};
use vstd::prelude::*;

verus! {

#[derive(Debug, Clone, Copy, PartialEq, Eq, Structural)]
pub enum DirH {
    Left,
    Right,
}

#[derive(Debug, Clone, Copy, PartialEq, Eq, Structural)]
pub enum DirV {
    Up,
    Down,
}

#[derive(Debug, Clone, Copy, PartialEq, Eq, Structural)]
pub enum Edge {
    First,
    Last,
}

/// An operation of the layout engine on the workspace that a monitor
/// shows, or on the choice of that workspace. The engine answers
/// whether anything changed.
#[derive(Debug, Clone, Copy, PartialEq, Eq, Structural)]
pub enum TilingOp {
    FocusColumn(DirH),
    FocusTile(DirV),
    MoveColumn(DirH),
    MoveTile(DirV),
    MoveTileAcross(DirH),
    ConsumeOrExpel(DirH),
    ConsumeIntoColumn,
    ExpelFromColumn,
    FocusColumnEdge(Edge),
    FocusColumnIndex(usize),
    SetColumnWidth(SizeChange),
    CycleColumnWidth,
    SetWindowHeight(SizeChange),
    ToggleFullWidth,
    ToggleMaximized,
    ToggleFullscreen,
    SwitchWorkspace(usize),
    MoveWindowToWorkspace(usize),
    MoveColumnToWorkspace(usize),
}

/// Why the layout focus is moved to a window.
#[derive(Debug, Clone, Copy, PartialEq, Eq, Structural)]
pub enum FocusCause {
    /// The system brought the window to the foreground.
    Foreground,
    /// The pointer rests on it.
    Hover,
    /// It was clicked in the overview.
    OverviewClick,
}

/// Where a dragged window is dropped.
#[derive(Debug, Clone, Copy, PartialEq, Eq, Structural)]
pub enum DropPlace {
    /// Into the column of the anchor window, below it or above it.
    Into { anchor: WindowId, below: bool },
    /// As a column of its own, right of the column of this window;
    /// leftmost without one.
    Beside { after: Option<WindowId> },
}

#[derive(Debug, PartialEq, Eq)]
pub enum Effect {
    // Requests: the shell calls back.
    /// `AppState::layout_add_window`.
    PlaceWindow(WindowId),
    /// `finish_placement`.
    FinishPlacement(WindowId),
    /// Move the layout focus to the window, then `AppState::focus_moved`.
    FocusWindow { id: WindowId, cause: FocusCause },
    /// `AppState::update_focus_view`.
    UpdateFocusView(WindowId),
    /// `AppState::update_focus_border`.
    UpdateFocusBorder,
    /// `AppState::reflow`.
    Reflow,
    /// `AppState::switch_view`.
    SwitchView { device: String, prev: usize, idx: usize },
    /// `AppState::place_slide`.
    PlaceSlide(String),
    /// `AppState::sync_focus_to_os`.
    SyncFocus,
    /// `AppState::tick_animations`.
    TickAnimations,
    /// `AppState::tick_slides`.
    TickSlides,
    /// `AppState::tick_slide`.
    TickSlide(String),
    /// Drain the tray menu, then `handle_tray_events`.
    PollTray,
    /// `AppState::handle_tiled_drag_end`.
    DragEnd(WindowId),
    /// `drag::drop_window`.
    DropWindow { device: String, id: WindowId, place: DropPlace, width: Option<u64> },
    /// `AppState::begin_screen_transition`.
    BeginTransition,
    /// Take the window out of the layout, then `AppState::float_window`.
    FloatWindow(WindowId),
    /// Toggle the overview of the workspace shown, then `overview_toggled`.
    ToggleOverview(String),
    /// Run the operation, then `AppState::tiling_done`.
    Tiling {
        device: String,
        op: TilingOp,
        focused: Option<WindowId>,
        prev: usize,
        fullscreen: Option<WindowId>,
    },
    /// Read the style of the window, then `AppState::strip_borders`.
    StripBorders(WindowId),
    /// `AppState::rehome_windows`.
    RehomeWindows(String),
    /// `AppState::restore_all`.
    RestoreWindows,
    /// `AppState::force_reload`.
    ReloadConfig,
    /// `autostart_toggled` and `set_autostart` of the tray.
    ToggleAutostart,
    // The layout engine.
    AddWindow { device: String, id: WindowId },
    AddWindowToWorkspace { device: String, id: WindowId, idx: usize },
    RemoveWindow(WindowId),
    RemoveFromActive { device: String, id: WindowId },
    AddToColumn { device: String, id: WindowId, column: usize, row: usize },
    InsertColumn { device: String, id: WindowId, column: usize },
    /// Give the column this width (in the engine's encoding), if the
    /// column is there.
    SetWidth { device: String, column: usize, code: u64 },
    /// Mark the column of that workspace maximized and full-width.
    MaximizeColumn { device: String, workspace: usize, column: usize },
    /// Make the window the fullscreen one of that workspace.
    SetFullscreen { device: String, workspace: usize, id: WindowId },
    SetMinSize { id: WindowId, w: i64, h: i64 },
    ExitOverview(String),
    RemoveMonitor(String),
    AddMonitor(String),
    /// Scroll the workspace so that its focused column is visible in a
    /// view of this width.
    RefreshView { device: String, workspace: usize, view_width: i64 },
    // Animations.
    SetTarget { id: WindowId, rect: FloatRect },
    RemoveAnimation(WindowId),
    /// Snap every animation to its end and place the windows there.
    FinishAnimations,
    /// Advance every animation and place the windows.
    StepAnimations,
    /// Aim the camera of the monitor at workspace `to`. A camera in
    /// flight keeps its position and its speed; where there is none, one
    /// starts at workspace `from`.
    AimCamera { device: String, from: usize, to: usize },
    // Windows.
    Show(WindowId),
    Hide(WindowId),
    Raise(WindowId),
    /// Bring the desktop bars back above the windows.
    RaiseBars,
    Place(TileRect),
    /// Put back the decorations that were removed.
    RestoreBorders { id: WindowId, removed: u32 },
    /// Remove the decorations.
    RemoveBorders(WindowId),
    RestoreBounds { id: WindowId, bounds: Bounds },
    /// Ask the window to close.
    Close(WindowId),
    SetForeground(WindowId),
    /// Bring the window to the foreground; if that succeeded, bring the
    /// bars back above it.
    SetForegroundUnderBars(WindowId),
    // The program's own surfaces.
    HideRing,
    ShowTransition(String),
    ShowWorkspace { device: String, number: usize },
    // The program.
    Spawn(String),
    OpenConfig,
    Quit,
    SetAnimationParams,
    /// Give the layout engine the layout parameters of the configuration
    /// that is being applied.
    SetLayoutParams,
    SetModKey,
    UpdateBinds,
    /// Take the keyboard and mouse hooks out.
    UninstallInput,
    /// Take the window event hooks out.
    DropEventHooks,
    DropOverlay,
    DropFocusBorder,
}

/// Place each tile.
pub open spec fn place_all(rects: Seq<TileRect>) -> Seq<Effect> {
    rects.map_values(|r: TileRect| Effect::Place(r))
}

/// Hide each window.
pub open spec fn hide_all(ids: Seq<WindowId>) -> Seq<Effect> {
    ids.map_values(|id: WindowId| Effect::Hide(id))
}

/// Show each window.
pub open spec fn show_all(ids: Seq<WindowId>) -> Seq<Effect> {
    ids.map_values(|id: WindowId| Effect::Show(id))
}

/// Raise each window.
pub open spec fn raise_all(ids: Seq<WindowId>) -> Seq<Effect> {
    ids.map_values(|id: WindowId| Effect::Raise(id))
}

/// Hide each window and stop animating it.
pub open spec fn retire_all(ids: Seq<WindowId>) -> Seq<Effect>
    decreases ids.len(),
{
    if ids.len() == 0 {
        Seq::empty()
    } else {
        retire_all(ids.drop_last()) + seq![
            Effect::Hide(ids.last()),
            Effect::RemoveAnimation(ids.last()),
        ]
    }
}

pub fn push_places(effects: &mut Vec<Effect>, rects: &Vec<TileRect>)
    ensures
        final(effects)@ == old(effects)@ + place_all(rects@),
{
    let ghost before = effects@;
    let mut i: usize = 0;
    while i < rects.len()
        invariant
            i <= rects@.len(),
            effects@ =~= before + place_all(rects@.take(i as int)),
        decreases rects@.len() - i,
    {
        effects.push(Effect::Place(rects[i]));
        i = i + 1;
    }
    assert(rects@.take(i as int) =~= rects@);
}

pub fn push_hides(effects: &mut Vec<Effect>, ids: &Vec<WindowId>)
    ensures
        final(effects)@ == old(effects)@ + hide_all(ids@),
{
    let ghost before = effects@;
    let mut i: usize = 0;
    while i < ids.len()
        invariant
            i <= ids@.len(),
            effects@ =~= before + hide_all(ids@.take(i as int)),
        decreases ids@.len() - i,
    {
        effects.push(Effect::Hide(ids[i]));
        i = i + 1;
    }
    assert(ids@.take(i as int) =~= ids@);
}

pub fn push_shows(effects: &mut Vec<Effect>, ids: &Vec<WindowId>)
    ensures
        final(effects)@ == old(effects)@ + show_all(ids@),
{
    let ghost before = effects@;
    let mut i: usize = 0;
    while i < ids.len()
        invariant
            i <= ids@.len(),
            effects@ =~= before + show_all(ids@.take(i as int)),
        decreases ids@.len() - i,
    {
        effects.push(Effect::Show(ids[i]));
        i = i + 1;
    }
    assert(ids@.take(i as int) =~= ids@);
}

pub fn push_raises(effects: &mut Vec<Effect>, ids: &Vec<WindowId>)
    ensures
        final(effects)@ == old(effects)@ + raise_all(ids@),
{
    let ghost before = effects@;
    let mut i: usize = 0;
    while i < ids.len()
        invariant
            i <= ids@.len(),
            effects@ =~= before + raise_all(ids@.take(i as int)),
        decreases ids@.len() - i,
    {
        effects.push(Effect::Raise(ids[i]));
        i = i + 1;
    }
    assert(ids@.take(i as int) =~= ids@);
}

pub fn push_retires(effects: &mut Vec<Effect>, ids: &Vec<WindowId>)
    ensures
        final(effects)@ == old(effects)@ + retire_all(ids@),
{
    let ghost before = effects@;
    let mut i: usize = 0;
    while i < ids.len()
        invariant
            i <= ids@.len(),
            effects@ =~= before + retire_all(ids@.take(i as int)),
        decreases ids@.len() - i,
    {
        assert(ids@.take(i + 1).drop_last() =~= ids@.take(i as int));
        effects.push(Effect::Hide(ids[i]));
        effects.push(Effect::RemoveAnimation(ids[i]));
        i = i + 1;
    }
    assert(ids@.take(i as int) =~= ids@);
}

/// A hidden window is hidden by one of the effects that hide it.
pub proof fn lemma_retire_hides(ids: Seq<WindowId>, id: WindowId)
    ensures
        retire_all(ids).contains(Effect::Hide(id)) <==> ids.contains(id),
    decreases ids.len(),
{
    if ids.len() > 0 {
        let t = ids.drop_last();
        lemma_retire_hides(t, id);
        let a = retire_all(t);
        let b = seq![Effect::Hide(ids.last()), Effect::RemoveAnimation(ids.last())];
        assert(retire_all(ids) =~= a + b);
        if ids.contains(id) {
            let i = ids.index_of(id);
            if i < t.len() {
                assert(t[i] == id);
                let k = a.index_of(Effect::Hide(id));
                assert((a + b)[k] == Effect::Hide(id));
            } else {
                assert((a + b)[a.len() as int] == Effect::Hide(id));
            }
        }
        if (a + b).contains(Effect::Hide(id)) {
            let k = (a + b).index_of(Effect::Hide(id));
            if k < a.len() {
                assert(a[k] == Effect::Hide(id));
                let i = t.index_of(id);
                assert(ids[i] == id);
            } else {
                assert(b[k - a.len()] == Effect::Hide(id));
                assert(ids[ids.len() - 1] == id);
            }
        }
    }
}

} // verus!

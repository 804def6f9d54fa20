use yumi_wini::dispatch::Action;
use yumi_wini::effect::{DirH, DirV, Edge, Effect, TilingOp};
use yumi_wini::floating::SizeChange;
use yumi_wini::geometry::{Bounds, FloatRect, Monitor, Rect};
use yumi_wini::layout::{Column, Layout, MonitorLayout, Workspace};
use yumi_wini::placement::set_borderless;
use yumi_wini::state::{AppState, Ring, Settings};

const PX: i64 = 1_000_000;

fn state() -> AppState {
    let monitor = Monitor {
        device: "A".to_string(),
        full: Rect { left: 0, top: 0, right: 1000, bottom: 800 },
        work: Rect { left: 0, top: 0, right: 1000, bottom: 760 },
        is_primary: true,
    };
    let settings = Settings {
        mod_key: "super".to_string(),
        focus_follows_mouse: false,
        slides_enabled: true,
        gaps: 20_000_000,
        ring: Ring { enabled: true, active_color: 0, width: 4, radius: 8 },
    };
    AppState::new(vec![monitor], settings, None, true, true)
}

fn workspace(columns: Vec<Vec<isize>>, focused: Option<isize>) -> Workspace {
    Workspace {
        columns: columns.into_iter().map(|tiles| Column { tiles, width: None }).collect(),
        focused,
        fullscreen_id: None,
        is_overview: false,
    }
}

fn layout(active: usize, workspaces: Vec<Workspace>) -> Layout {
    Layout {
        monitors: vec![MonitorLayout {
            device: "A".to_string(),
            active_workspace_idx: active,
            workspaces,
        }],
    }
}

fn one() -> Layout {
    layout(0, vec![workspace(vec![vec![1]], Some(1)), workspace(vec![vec![2]], Some(2))])
}

fn a() -> Option<String> {
    Some("A".to_string())
}

fn act(s: &mut AppState, action: Action, l: &Layout) -> Vec<Effect> {
    assert!(s.can_dispatch(&action, &a(), l));
    s.dispatch(action, a(), l)
}

fn tiling(op: TilingOp) -> Vec<Effect> {
    vec![Effect::Tiling {
        device: "A".to_string(),
        op,
        focused: Some(1),
        prev: 0,
        fullscreen: None,
    }]
}

#[test]
fn every_tiling_action_runs_its_operation() {
    let d = SizeChange::Delta(5);
    let cases = vec![
        (Action::FocusColumnLeft, TilingOp::FocusColumn(DirH::Left)),
        (Action::FocusColumnRight, TilingOp::FocusColumn(DirH::Right)),
        (Action::FocusWindowDown, TilingOp::FocusTile(DirV::Down)),
        (Action::FocusWindowUp, TilingOp::FocusTile(DirV::Up)),
        (Action::MoveColumnLeft, TilingOp::MoveColumn(DirH::Left)),
        (Action::MoveColumnRight, TilingOp::MoveColumn(DirH::Right)),
        (Action::MoveWindowDown, TilingOp::MoveTile(DirV::Down)),
        (Action::MoveWindowUp, TilingOp::MoveTile(DirV::Up)),
        (Action::MoveWindowToColumnLeft, TilingOp::MoveTileAcross(DirH::Left)),
        (Action::MoveWindowToColumnRight, TilingOp::MoveTileAcross(DirH::Right)),
        (Action::ConsumeOrExpelWindowLeft, TilingOp::ConsumeOrExpel(DirH::Left)),
        (Action::ConsumeOrExpelWindowRight, TilingOp::ConsumeOrExpel(DirH::Right)),
        (Action::ConsumeWindowIntoColumn, TilingOp::ConsumeIntoColumn),
        (Action::ExpelWindowFromColumn, TilingOp::ExpelFromColumn),
        (Action::FocusColumnFirst, TilingOp::FocusColumnEdge(Edge::First)),
        (Action::FocusColumnLast, TilingOp::FocusColumnEdge(Edge::Last)),
        (Action::FocusColumnIndex(0), TilingOp::FocusColumnIndex(0)),
        (Action::FocusColumnIndex(4), TilingOp::FocusColumnIndex(3)),
        (Action::SetColumnWidth(Some(d)), TilingOp::SetColumnWidth(d)),
        (Action::SetColumnWidth(None), TilingOp::CycleColumnWidth),
        (Action::SwitchPresetColumnWidth, TilingOp::CycleColumnWidth),
        (Action::SetWindowHeight(Some(d)), TilingOp::SetWindowHeight(d)),
        (Action::ToggleFullWidth, TilingOp::ToggleFullWidth),
        (Action::MaximizeColumn, TilingOp::ToggleMaximized),
        (Action::ToggleWindowedFullscreen, TilingOp::ToggleFullscreen),
        (Action::FocusWorkspace(2), TilingOp::SwitchWorkspace(1)),
        (Action::WorkspaceSwitch(0), TilingOp::SwitchWorkspace(0)),
        (Action::MoveWindowToWorkspace(3), TilingOp::MoveWindowToWorkspace(2)),
        (Action::MoveColumnToWorkspace(1), TilingOp::MoveColumnToWorkspace(0)),
    ];
    for (action, op) in cases {
        let mut s = state();
        s.focused = Some(1);
        assert_eq!(act(&mut s, action, &one()), tiling(op));
    }
}

#[test]
fn actions_on_the_program() {
    let mut s = state();
    s.focused = Some(1);
    assert_eq!(
        act(&mut s, Action::Spawn("wt".to_string()), &one()),
        vec![Effect::Spawn("wt".to_string())]
    );
    assert_eq!(act(&mut s, Action::Quit, &one()), vec![Effect::Quit]);
    assert_eq!(act(&mut s, Action::CloseWindow, &one()), vec![Effect::Close(1)]);
    assert_eq!(act(&mut s, Action::SetWindowHeight(None), &one()), vec![]);
    assert_eq!(act(&mut s, Action::ToggleOverview, &one()), vec![]);
    assert_eq!(act(&mut s, Action::DoScreenTransition, &one()), vec![Effect::BeginTransition]);
    assert_eq!(act(&mut s, Action::ToggleWindowFloating, &one()), vec![Effect::FloatWindow(1)]);
}

#[test]
fn an_empty_workspace_can_be_left() {
    let mut s = state();
    let l = layout(0, vec![workspace(vec![], None), workspace(vec![vec![2]], Some(2))]);
    assert_eq!(
        act(&mut s, Action::FocusWorkspace(2), &l),
        vec![Effect::Tiling {
            device: "A".to_string(),
            op: TilingOp::SwitchWorkspace(1),
            focused: None,
            prev: 0,
            fullscreen: None,
        }]
    );
    assert_eq!(act(&mut s, Action::CloseWindow, &l), vec![]);
    assert_eq!(act(&mut s, Action::ToggleWindowFloating, &l), vec![]);
}

#[test]
fn without_a_foreground_window_the_focus_under_the_pointer_counts() {
    let mut s = state();
    assert_eq!(act(&mut s, Action::CloseWindow, &one()), vec![Effect::Close(1)]);
    // No monitor at all: nothing happens.
    assert_eq!(s.dispatch(Action::Quit, None, &one()), vec![]);
}

#[test]
fn an_unknown_monitor_cannot_be_tiled_but_programs_run_and_end() {
    let mut s = state();
    let b = Some("B".to_string());
    assert!(!s.can_dispatch(&Action::FocusWorkspace(2), &b, &one()));
    assert!(s.can_dispatch(&Action::DoScreenTransition, &b, &one()));
    assert!(s.can_dispatch(&Action::Quit, &b, &one()));
    assert_eq!(s.dispatch(Action::Quit, b.clone(), &one()), vec![Effect::Quit]);
    let spawn = Action::Spawn("wt".to_string());
    assert!(s.can_dispatch(&spawn, &b, &one()));
    assert_eq!(s.dispatch(spawn, b, &one()), vec![Effect::Spawn("wt".to_string())]);
}

#[test]
fn a_suspended_program_only_quits_or_covers_the_screen() {
    let mut s = state();
    s.focused = Some(1);
    s.suspended = true;
    assert_eq!(act(&mut s, Action::Quit, &one()), vec![Effect::Quit]);
    assert_eq!(act(&mut s, Action::DoScreenTransition, &one()), vec![Effect::BeginTransition]);
    assert_eq!(act(&mut s, Action::FocusWorkspace(2), &one()), vec![]);
    assert_eq!(act(&mut s, Action::CloseWindow, &one()), vec![]);
    assert_eq!(act(&mut s, Action::Spawn("wt".to_string()), &one()), vec![]);
}

fn floating() -> AppState {
    let mut s = state();
    s.focused = Some(5);
    let b = Bounds { x: 300, y: 200, w: 400, h: 300 };
    assert_eq!(
        s.float_window(5, a(), Some(b), &one()),
        vec![
            Effect::SetTarget {
                id: 5,
                rect: FloatRect { x: 300 * PX, y: 200 * PX, w: 400 * PX, h: 300 * PX },
            },
            Effect::Reflow,
        ]
    );
    s
}

fn place(s: &AppState) -> (i64, i64, i64, i64) {
    let r = s.floating.get(&5).unwrap().rect;
    (r.x, r.y, r.w, r.h)
}

#[test]
fn actions_move_a_float_by_fifty_pixels() {
    let mut s = floating();
    assert_eq!(act(&mut s, Action::MoveColumnLeft, &one()), vec![Effect::Reflow]);
    assert_eq!(place(&s), (250 * PX, 200 * PX, 400 * PX, 300 * PX));
    act(&mut s, Action::MoveColumnRight, &one());
    act(&mut s, Action::MoveWindowUp, &one());
    assert_eq!(place(&s), (300 * PX, 150 * PX, 400 * PX, 300 * PX));
    act(&mut s, Action::MoveWindowDown, &one());
    assert_eq!(place(&s), (300 * PX, 200 * PX, 400 * PX, 300 * PX));
}

#[test]
fn actions_resize_a_float() {
    let mut s = floating();
    act(&mut s, Action::SetColumnWidth(Some(SizeChange::Delta(-350 * PX))), &one());
    act(&mut s, Action::SetWindowHeight(Some(SizeChange::Proportion(500_000))), &one());
    assert_eq!(place(&s), (300 * PX, 200 * PX, 100 * PX, 150 * PX));
    act(&mut s, Action::SetWindowHeight(Some(SizeChange::Fixed(600 * PX))), &one());
    assert_eq!(place(&s), (300 * PX, 200 * PX, 100 * PX, 600 * PX));
}

#[test]
fn a_float_keeps_a_hundred_pixels_on_its_monitor() {
    let mut s = floating();
    for _ in 0..40 {
        act(&mut s, Action::MoveColumnLeft, &one());
    }
    assert_eq!(place(&s).0, -300 * PX);
    for _ in 0..60 {
        act(&mut s, Action::MoveColumnRight, &one());
        act(&mut s, Action::MoveWindowDown, &one());
    }
    assert_eq!((place(&s).0, place(&s).1), (900 * PX, 660 * PX));
}

#[test]
fn a_float_without_room_cannot_be_moved() {
    let mut s = floating();
    s.monitors[0].work = Rect { left: 0, top: 0, right: 10, bottom: 10 };
    s.floating.get_mut(&5).unwrap().rect.w = 0;
    assert!(!s.can_dispatch(&Action::MoveColumnLeft, &a(), &one()));
    assert!(s.can_dispatch(&Action::CloseWindow, &a(), &one()));
}

#[test]
fn a_float_on_an_unknown_monitor_moves_freely() {
    let mut s = floating();
    s.monitors.clear();
    for _ in 0..40 {
        act(&mut s, Action::MoveColumnLeft, &one());
    }
    assert_eq!(place(&s).0, -1700 * PX);
}

#[test]
fn other_actions_on_a_float() {
    let mut s = floating();
    assert_eq!(
        act(&mut s, Action::ToggleOverview, &one()),
        vec![Effect::ToggleOverview("A".to_string())]
    );
    assert_eq!(act(&mut s, Action::CloseWindow, &one()), vec![Effect::Close(5)]);
    let gone = Layout { monitors: vec![] };
    assert_eq!(s.dispatch(Action::ToggleOverview, a(), &gone), vec![]);
}

#[test]
fn what_is_not_for_a_float_goes_to_the_tiling() {
    let mut s = floating();
    let tiled = |op: TilingOp| {
        vec![Effect::Tiling {
            device: "A".to_string(),
            op,
            focused: Some(5),
            prev: 0,
            fullscreen: None,
        }]
    };
    assert_eq!(act(&mut s, Action::Quit, &one()), vec![Effect::Quit]);
    assert_eq!(
        act(&mut s, Action::Spawn("wt".to_string()), &one()),
        vec![Effect::Spawn("wt".to_string())]
    );
    assert_eq!(
        act(&mut s, Action::FocusWorkspace(2), &one()),
        tiled(TilingOp::SwitchWorkspace(1))
    );
    assert_eq!(
        act(&mut s, Action::SwitchPresetColumnWidth, &one()),
        tiled(TilingOp::CycleColumnWidth)
    );
    // Resizing is about the float, even without a size.
    let before = place(&s);
    assert_eq!(act(&mut s, Action::SetColumnWidth(None), &one()), vec![]);
    assert_eq!(act(&mut s, Action::SetWindowHeight(None), &one()), vec![]);
    assert_eq!(place(&s), before);
}

#[test]
fn floating_and_back_leaves_nothing_behind() {
    let mut s = floating();
    assert_eq!(
        act(&mut s, Action::ToggleWindowFloating, &one()),
        vec![
            Effect::AddWindow { device: "A".to_string(), id: 5 },
            Effect::Reflow,
            Effect::SyncFocus,
        ]
    );
    assert!(s.floating.is_empty());
}

#[test]
fn a_window_outside_the_layout_does_not_float() {
    let mut s = state();
    assert_eq!(s.float_window(5, None, None, &one()), vec![]);
    assert!(s.floating.is_empty());
}

#[test]
fn a_float_of_unknown_place_is_centered() {
    let mut s = state();
    s.float_window(5, a(), None, &one());
    // 60% of 1000 x 760, in the middle.
    assert_eq!(place(&s), (200 * PX, 152 * PX, 600 * PX, 456 * PX));
    let mut s = state();
    s.float_window(5, Some("B".to_string()), None, &one());
    assert_eq!(place(&s), (200 * PX, 152 * PX, 600 * PX, 456 * PX));
    assert_eq!(s.floating.get(&5).unwrap().workspace_idx, 0);
    let mut s = state();
    s.monitors.clear();
    s.float_window(5, a(), None, &one());
    assert_eq!(place(&s), (100 * PX, 100 * PX, 800 * PX, 600 * PX));
}

#[test]
fn the_focus_follows_a_workspace_switch() {
    let mut s = state();
    s.focused = Some(1);
    let after = layout(1, one().monitors.remove(0).workspaces);
    let effects = s.tiling_done(
        "A".to_string(),
        TilingOp::SwitchWorkspace(1),
        Some(1),
        0,
        None,
        true,
        &after,
    );
    assert_eq!(
        effects,
        vec![
            Effect::UpdateFocusView(2),
            Effect::SwitchView { device: "A".to_string(), prev: 0, idx: 1 },
            Effect::SyncFocus,
            Effect::ShowWorkspace { device: "A".to_string(), number: 2 },
        ]
    );
    assert_eq!(s.focused, Some(2));
}

#[test]
fn switching_to_an_empty_workspace_drops_the_focus() {
    let mut s = state();
    s.focused = Some(1);
    s.has_overlay = false;
    let after = layout(1, vec![workspace(vec![vec![1]], Some(1)), workspace(vec![], None)]);
    let op = TilingOp::SwitchWorkspace(1);
    let effects = s.tiling_done("A".to_string(), op, Some(1), 0, None, true, &after);
    assert_eq!(
        effects,
        vec![
            Effect::SwitchView { device: "A".to_string(), prev: 0, idx: 1 },
            Effect::SyncFocus,
        ]
    );
    assert_eq!(s.focused, None);
}

#[test]
fn an_operation_that_changed_nothing_is_over() {
    let mut s = state();
    s.focused = Some(1);
    let op = TilingOp::SwitchWorkspace(1);
    assert_eq!(s.tiling_done("A".to_string(), op, Some(1), 0, Some(1), false, &one()), vec![]);
    assert_eq!(s.focused, Some(1));
}

#[test]
fn other_changes_are_scrolled_to_and_tiled() {
    let mut s = state();
    let op = TilingOp::MoveColumn(DirH::Left);
    assert_eq!(
        s.tiling_done("A".to_string(), op, Some(1), 0, None, true, &one()),
        vec![Effect::UpdateFocusView(1), Effect::Reflow, Effect::SyncFocus]
    );
    assert_eq!(
        s.tiling_done("A".to_string(), op, None, 0, None, true, &one()),
        vec![Effect::Reflow, Effect::SyncFocus]
    );
}

#[test]
fn decorations_follow_fullscreen_and_come_back() {
    let mut s = state();
    s.focused = Some(1);
    let mut on = one();
    on.monitors[0].workspaces[0].fullscreen_id = Some(1);
    let op = TilingOp::ToggleFullscreen;
    assert_eq!(
        s.tiling_done("A".to_string(), op, Some(1), 0, None, true, &on),
        vec![
            Effect::StripBorders(1),
            Effect::UpdateFocusView(1),
            Effect::Reflow,
            Effect::SyncFocus,
        ]
    );
    // A window with a caption but without a size box.
    let style: u32 = 0x10C8_0000;
    assert_eq!(
        s.strip_borders(1, Some(style)),
        vec![Effect::RemoveBorders(1), Effect::Raise(1)]
    );
    let bare = set_borderless(style, 0, true).unwrap();
    assert_eq!(bare, 0x1000_0000);
    // The action remembers which window was in fullscreen.
    assert_eq!(
        act(&mut s, Action::ToggleWindowedFullscreen, &on),
        vec![Effect::Tiling {
            device: "A".to_string(),
            op,
            focused: Some(1),
            prev: 0,
            fullscreen: Some(1),
        }]
    );
    let effects = s.tiling_done("A".to_string(), op, Some(1), 0, Some(1), true, &one());
    assert_eq!(effects[0], Effect::RestoreBorders { id: 1, removed: 0x00C8_0000 });
    assert_eq!(effects.len(), 4);
    assert!(s.borderless.is_empty());
    assert_eq!(set_borderless(bare, 0x00C8_0000, false), Some(style));
}

#[test]
fn a_dead_window_is_not_stripped() {
    let mut s = state();
    assert_eq!(s.strip_borders(1, None), vec![]);
    assert!(s.borderless.is_empty());
    assert_eq!(s.restore_borders(1), vec![]);
}

#[test]
fn stripping_twice_forgets_nothing() {
    let mut s = state();
    s.strip_borders(1, Some(0x00C8_0000));
    s.strip_borders(1, Some(0));
    assert_eq!(
        s.restore_borders(1),
        vec![Effect::RestoreBorders { id: 1, removed: 0x00C8_0000 }]
    );
}

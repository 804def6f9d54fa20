use yumi_wini::drag::{drop_place, drop_window, DropSight};
use yumi_wini::effect::{DropPlace, Effect, FocusCause};
use yumi_wini::geometry::{Bounds, Monitor, Rect, TileRect};
use yumi_wini::layout::{Column, Layout, MonitorLayout, Workspace};
use yumi_wini::state::{AppState, Ring, Settings};

fn state() -> AppState {
    let monitors = ["A", "B"]
        .iter()
        .map(|d| Monitor {
            device: d.to_string(),
            full: Rect { left: 0, top: 0, right: 1000, bottom: 800 },
            work: Rect { left: 0, top: 0, right: 1000, bottom: 760 },
            is_primary: *d == "A",
        })
        .collect();
    let settings = Settings {
        mod_key: "super".to_string(),
        focus_follows_mouse: false,
        slides_enabled: true,
        gaps: 20_000_000,
        ring: Ring { enabled: true, active_color: 0, width: 4, radius: 8 },
    };
    AppState::new(monitors, settings, None, true, true)
}

/// Column 0 holds 1; column 1 holds 2 above 3; column 2 holds 4.
fn shelf() -> Workspace {
    Workspace {
        columns: vec![
            Column { tiles: vec![1], width: Some(77) },
            Column { tiles: vec![2, 3], width: None },
            Column { tiles: vec![4], width: None },
        ],
        focused: Some(1),
        fullscreen_id: None,
        is_overview: false,
    }
}

fn tiles() -> Vec<TileRect> {
    vec![
        TileRect { id: 1, x: 10, y: 10, w: 280, h: 700 },
        TileRect { id: 2, x: 310, y: 10, w: 280, h: 340 },
        TileRect { id: 3, x: 310, y: 370, w: 280, h: 340 },
        TileRect { id: 4, x: 610, y: 10, w: 280, h: 700 },
    ]
}

fn layout() -> Layout {
    let m = |device: &str, ws: Workspace| MonitorLayout {
        device: device.to_string(),
        active_workspace_idx: 0,
        workspaces: vec![ws],
    };
    let empty = Workspace {
        columns: vec![],
        focused: None,
        fullscreen_id: None,
        is_overview: false,
    };
    Layout { monitors: vec![m("A", shelf()), m("B", empty)] }
}

fn sight(cursor: Option<(i32, i32)>, device: &str) -> DropSight {
    DropSight {
        end: Some(Bounds { x: 500, y: 500, w: 280, h: 700 }),
        cursor,
        cursor_device: Some(device.to_string()),
        tiles: tiles(),
    }
}

fn grabbed() -> AppState {
    let mut s = state();
    s.interact_start = Some(Bounds { x: 10, y: 10, w: 280, h: 700 });
    s
}

fn at(id: isize, x: i32, y: i32) -> DropPlace {
    drop_place(id, (x, y), &tiles(), 20_000_000, &shelf())
}

#[test]
fn the_height_of_the_pointer_picks_the_slot() {
    assert_eq!(at(1, 400, 100), DropPlace::Into { anchor: 2, below: false });
    // The middle of the upper tile is at 180.
    assert_eq!(at(1, 400, 179), DropPlace::Into { anchor: 2, below: false });
    assert_eq!(at(1, 400, 180), DropPlace::Into { anchor: 3, below: false });
    assert_eq!(at(1, 400, 539), DropPlace::Into { anchor: 3, below: false });
    assert_eq!(at(1, 400, 540), DropPlace::Into { anchor: 3, below: true });
}

#[test]
fn a_column_reaches_from_edge_to_edge() {
    assert_eq!(at(4, 310, 100), DropPlace::Into { anchor: 2, below: false });
    assert_eq!(at(4, 589, 100), DropPlace::Into { anchor: 2, below: false });
    assert_eq!(at(4, 289, 100), DropPlace::Into { anchor: 1, below: false });
}

#[test]
fn a_gap_makes_a_column_of_its_own() {
    // Between the first and the second column, and between the second and the third.
    assert_eq!(at(4, 290, 100), DropPlace::Beside { after: Some(1) });
    assert_eq!(at(4, 309, 100), DropPlace::Beside { after: Some(1) });
    assert_eq!(at(1, 590, 100), DropPlace::Beside { after: Some(2) });
    assert_eq!(at(1, 609, 100), DropPlace::Beside { after: Some(2) });
    // Left of everything, by more than half a gap.
    assert_eq!(at(4, -1, 100), DropPlace::Beside { after: None });
    // The dragged window's own column is no target.
    assert_eq!(at(1, 100, 100), DropPlace::Beside { after: None });
    assert_eq!(at(2, 900, 100), DropPlace::Beside { after: Some(4) });
    assert_eq!(at(4, 950, 100), DropPlace::Beside { after: Some(2) });
}

#[test]
fn half_a_gap_outside_counts_as_the_outermost_column() {
    // Columns reach from 10 to 290, from 310 to 590 and from 610 to 890.
    assert_eq!(at(4, 0, 100), DropPlace::Into { anchor: 1, below: false });
    assert_eq!(at(4, 9, 600), DropPlace::Into { anchor: 1, below: true });
    assert_eq!(at(1, 890, 100), DropPlace::Into { anchor: 4, below: false });
    assert_eq!(at(1, 899, 100), DropPlace::Into { anchor: 4, below: false });
    assert_eq!(at(1, 900, 100), DropPlace::Beside { after: Some(4) });
    // With the first column dragged away, the second one is the first.
    assert_eq!(at(1, 300, 100), DropPlace::Into { anchor: 2, below: false });
    assert_eq!(at(1, 299, 100), DropPlace::Beside { after: None });
    // Half of a gap of 5 px is 2.5 px.
    let p = |x: i32| drop_place(1, (x, 100), &tiles(), 5_000_000, &shelf());
    assert_eq!(p(892), DropPlace::Into { anchor: 4, below: false });
    assert_eq!(p(893), DropPlace::Beside { after: Some(4) });
}

#[test]
fn a_drag_that_ends_during_a_transition_moves_nothing() {
    for end in [Bounds { x: 500, y: 500, w: 280, h: 700 }, Bounds { x: 10, y: 10, w: 280, h: 700 }]
    {
        let mut s = grabbed();
        s.suspended = true;
        let mut seen = sight(Some((900, 100)), "B");
        seen.end = Some(end);
        assert_eq!(s.handle_tiled_drag_end(1, seen, &layout()), vec![]);
        assert_eq!(s.interact_start, None);
    }
}

#[test]
fn a_drop_reorders_and_keeps_the_width() {
    let mut s = grabbed();
    let effects = s.handle_tiled_drag_end(1, sight(Some((900, 100)), "A"), &layout());
    let place = DropPlace::Beside { after: Some(4) };
    assert_eq!(
        effects,
        vec![
            Effect::RemoveFromActive { device: "A".to_string(), id: 1 },
            Effect::DropWindow { device: "A".to_string(), id: 1, place, width: Some(77) },
            Effect::UpdateFocusView(1),
            Effect::Reflow,
            Effect::SyncFocus,
        ]
    );
    assert_eq!(s.interact_start, None);
}

#[test]
fn a_drop_on_another_monitor_moves_the_window_there() {
    let mut s = grabbed();
    assert_eq!(
        s.handle_tiled_drag_end(1, sight(Some((900, 100)), "B"), &layout()),
        vec![
            Effect::RemoveWindow(1),
            Effect::AddWindow { device: "B".to_string(), id: 1 },
            Effect::Reflow,
        ]
    );
}

#[test]
fn a_click_only_puts_the_window_back() {
    for (x, y, click) in [(19, 1, true), (1, 19, true), (20, 10, false), (10, 0, false)] {
        let mut s = grabbed();
        let mut seen = sight(Some((900, 100)), "A");
        seen.end = Some(Bounds { x, y, w: 280, h: 700 });
        let effects = s.handle_tiled_drag_end(1, seen, &layout());
        assert_eq!(effects == vec![Effect::Reflow], click);
    }
}

#[test]
fn a_click_in_the_overview_leaves_it() {
    let mut s = grabbed();
    let mut l = layout();
    l.monitors[0].workspaces[0].is_overview = true;
    let mut seen = sight(None, "A");
    seen.end = Some(Bounds { x: 10, y: 10, w: 280, h: 700 });
    assert_eq!(
        s.handle_tiled_drag_end(2, seen, &l),
        vec![
            Effect::ExitOverview("A".to_string()),
            Effect::Reflow,
            Effect::FocusWindow { id: 2, cause: FocusCause::OverviewClick },
        ]
    );
}

#[test]
fn what_cannot_be_dropped_snaps_back() {
    let back = vec![Effect::Reflow];
    let mut s = grabbed();
    assert_eq!(s.handle_tiled_drag_end(1, sight(None, "A"), &layout()), back);
    let mut s = grabbed();
    assert_eq!(s.handle_tiled_drag_end(9, sight(Some((1, 1)), "A"), &layout()), back);
    let mut s = grabbed();
    let mut l = layout();
    l.monitors[0].workspaces[0].fullscreen_id = Some(1);
    assert_eq!(s.handle_tiled_drag_end(1, sight(Some((1, 1)), "A"), &l), back);
    let mut s = grabbed();
    s.monitors.remove(0);
    assert_eq!(s.handle_tiled_drag_end(1, sight(Some((1, 1)), "A"), &layout()), back);
}

#[test]
fn a_pointer_on_no_monitor_drops_at_home() {
    let mut s = grabbed();
    let mut seen = sight(Some((400, 100)), "A");
    seen.cursor_device = None;
    let effects = s.handle_tiled_drag_end(1, seen, &layout());
    assert_eq!(effects.len(), 5);
}

/// The shelf once window 1 is taken out.
fn without_one() -> Layout {
    let mut l = layout();
    l.monitors[0].workspaces[0].columns.remove(0);
    l
}

#[test]
fn dropping_into_a_column() {
    let into = |anchor: isize, below: bool| {
        let place = DropPlace::Into { anchor, below };
        drop_window("A".to_string(), 1, place, Some(77), &without_one())
    };
    assert_eq!(
        into(3, false),
        vec![Effect::AddToColumn { device: "A".to_string(), id: 1, column: 0, row: 1 }]
    );
    assert_eq!(
        into(3, true),
        vec![Effect::AddToColumn { device: "A".to_string(), id: 1, column: 0, row: 2 }]
    );
    assert_eq!(
        into(9, true),
        vec![Effect::InsertColumn { device: "A".to_string(), id: 1, column: 2 }]
    );
}

#[test]
fn dropping_beside_a_column() {
    let beside = |after: Option<isize>, width: Option<u64>| {
        drop_window("A".to_string(), 1, DropPlace::Beside { after }, width, &without_one())
    };
    assert_eq!(
        beside(Some(4), Some(77)),
        vec![
            Effect::InsertColumn { device: "A".to_string(), id: 1, column: 2 },
            Effect::SetWidth { device: "A".to_string(), column: 2, code: 77 },
        ]
    );
    assert_eq!(
        beside(None, None),
        vec![Effect::InsertColumn { device: "A".to_string(), id: 1, column: 0 }]
    );
    assert_eq!(
        beside(Some(9), None),
        vec![Effect::InsertColumn { device: "A".to_string(), id: 1, column: 0 }]
    );
    let gone = Layout { monitors: vec![] };
    let place = DropPlace::Beside { after: None };
    assert_eq!(drop_window("A".to_string(), 1, place, None, &gone), vec![]);
}

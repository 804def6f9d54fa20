use std::collections::HashSet;
use yumi_wini::effect::{Effect, FocusCause};
use yumi_wini::events::{
    finish_placement, home_device, workspace_index, MinSize, Seen, WinEvent, WindowRule,
};
use yumi_wini::geometry::{Bounds, FloatRect, Monitor, Rect};
use yumi_wini::layout::{Column, Layout, MonitorLayout, Workspace};
use yumi_wini::lifecycle::Found;
use yumi_wini::state::{AppState, Ring, Settings};

fn rect(left: i32, top: i32, right: i32, bottom: i32) -> Rect {
    Rect { left, top, right, bottom }
}

fn state() -> AppState {
    let monitor = Monitor {
        device: "A".to_string(),
        full: rect(0, 0, 1920, 1080),
        work: rect(0, 40, 1920, 1080),
        is_primary: true,
    };
    let settings = Settings {
        mod_key: "super".to_string(),
        focus_follows_mouse: true,
        slides_enabled: true,
        gaps: 20_000_000,
        ring: Ring { enabled: true, active_color: 0x112233, width: 4, radius: 8 },
    };
    AppState::new(vec![monitor], settings, None, true, true)
}

fn workspace(columns: Vec<Vec<isize>>) -> Workspace {
    Workspace {
        columns: columns.into_iter().map(|tiles| Column { tiles, width: None }).collect(),
        focused: None,
        fullscreen_id: None,
        is_overview: false,
    }
}

fn layout(active: usize, workspaces: Vec<Workspace>) -> Layout {
    Layout {
        monitors: vec![MonitorLayout {
            device: "A".to_string(),
            active_workspace_idx: active,
            workspaces,
        }],
    }
}

fn opened(r: Rect) -> Seen {
    Seen { manageable: Some(r), bounds: None }
}

const UNSEEN: Seen = Seen { manageable: None, bounds: None };

#[test]
fn a_new_window_is_tracked_placed_and_tiled() {
    let mut s = state();
    let effects = s.handle_event(WinEvent::Shown(7), opened(rect(1, 2, 3, 4)));
    assert_eq!(effects, vec![Effect::PlaceWindow(7), Effect::Reflow]);
    assert!(s.tracks(7));
    assert_eq!(s.original_rects.get(&7), Some(&rect(1, 2, 3, 4)));
}

#[test]
fn all_three_opening_events_track() {
    for event in [WinEvent::Shown(7), WinEvent::Uncloaked(7), WinEvent::MinimizeEnded(7)] {
        let mut s = state();
        assert_eq!(s.handle_event(event, opened(rect(0, 0, 1, 1))).len(), 2);
        assert!(s.tracks(7));
    }
}

#[test]
fn a_window_that_cannot_be_managed_is_not_tracked() {
    let mut s = state();
    assert_eq!(s.handle_event(WinEvent::Shown(7), UNSEEN), vec![]);
    assert!(!s.tracks(7));
}

#[test]
fn the_original_place_is_kept_when_a_window_shows_again() {
    let mut s = state();
    s.handle_event(WinEvent::Shown(7), opened(rect(1, 2, 3, 4)));
    assert_eq!(s.handle_event(WinEvent::Shown(7), opened(rect(9, 9, 10, 10))), vec![]);
    assert_eq!(s.original_rects.get(&7), Some(&rect(1, 2, 3, 4)));
}

#[test]
fn a_hidden_window_is_unmanaged() {
    for event in [WinEvent::Hidden(7), WinEvent::Cloaked(7), WinEvent::MinimizeStarted(7)] {
        let mut s = state();
        s.handle_event(WinEvent::Shown(7), opened(rect(1, 2, 3, 4)));
        s.borderless.insert(7, 5);
        let effects = s.handle_event(event, UNSEEN);
        assert_eq!(
            effects,
            vec![
                Effect::RemoveWindow(7),
                Effect::RemoveAnimation(7),
                Effect::RestoreBorders { id: 7, removed: 5 },
                Effect::Reflow,
            ]
        );
        assert!(!s.tracks(7));
        assert!(s.original_rects.is_empty());
        assert!(s.borderless.is_empty());
    }
}

#[test]
fn a_window_hidden_by_us_stays_managed() {
    for event in [WinEvent::Hidden(7), WinEvent::Cloaked(7), WinEvent::MinimizeStarted(7)] {
        let mut s = state();
        s.handle_event(WinEvent::Shown(7), opened(rect(1, 2, 3, 4)));
        s.hidden_by_us.insert(7);
        assert_eq!(s.handle_event(event, UNSEEN), vec![]);
        assert!(s.tracks(7));
        assert!(s.hidden_by_us.contains(&7));
    }
}

#[test]
fn a_destroyed_window_leaves_no_trace() {
    let mut s = state();
    s.handle_event(WinEvent::Shown(7), opened(rect(1, 2, 3, 4)));
    s.hidden_by_us.insert(7);
    let effects = s.handle_event(WinEvent::Destroyed(7), UNSEEN);
    assert_eq!(
        effects,
        vec![Effect::RemoveWindow(7), Effect::RemoveAnimation(7), Effect::Reflow]
    );
    assert!(!s.tracks(7));
    assert!(!s.hidden_by_us.contains(&7));
    assert!(s.floating.is_empty());
    assert!(s.original_rects.is_empty());
}

#[test]
fn an_unknown_destroyed_window_is_only_forgotten_as_hidden() {
    let mut s = state();
    s.hidden_by_us.insert(7);
    assert_eq!(s.handle_event(WinEvent::Destroyed(7), UNSEEN), vec![]);
    assert!(s.hidden_by_us.is_empty());
}

#[test]
fn holding_a_window_pauses_management() {
    let mut s = state();
    assert_eq!(s.handle_event(WinEvent::MoveSizeStart(7), UNSEEN), vec![]);
    assert!(!s.is_paused());
    s.handle_event(WinEvent::Shown(7), opened(rect(1, 2, 3, 4)));
    let b = Bounds { x: 5, y: 6, w: 7, h: 8 };
    let effects = s.handle_event(
        WinEvent::MoveSizeStart(7),
        Seen { manageable: None, bounds: Some(b) },
    );
    assert_eq!(effects, vec![Effect::UpdateFocusBorder]);
    assert!(s.is_paused());
    assert_eq!(s.interact_start, Some(b));
}

#[test]
fn letting_go_of_a_tiled_window_drops_it() {
    let mut s = state();
    s.handle_event(WinEvent::Shown(7), opened(rect(1, 2, 3, 4)));
    s.handle_event(WinEvent::MoveSizeStart(7), UNSEEN);
    assert_eq!(s.handle_event(WinEvent::MoveSizeEnd(8), UNSEEN), vec![]);
    assert!(s.is_paused());
    assert_eq!(s.handle_event(WinEvent::MoveSizeEnd(7), UNSEEN), vec![Effect::DragEnd(7)]);
    assert!(!s.is_paused());
}

#[test]
fn letting_go_of_a_float_adopts_its_place() {
    let mut s = state();
    s.handle_event(WinEvent::Shown(7), opened(rect(1, 2, 3, 4)));
    let l = layout(0, vec![workspace(vec![])]);
    s.float_window(7, Some("A".to_string()), Some(Bounds { x: 0, y: 0, w: 10, h: 10 }), &l);
    s.handle_event(WinEvent::MoveSizeStart(7), UNSEEN);
    let seen = Seen { manageable: None, bounds: Some(Bounds { x: 3, y: -4, w: 50, h: 60 }) };
    assert_eq!(s.handle_event(WinEvent::MoveSizeEnd(7), seen), vec![]);
    assert_eq!(
        s.floating.get(&7).map(|f| f.rect),
        Some(FloatRect { x: 3_000_000, y: -4_000_000, w: 50_000_000, h: 60_000_000 })
    );
}

#[test]
fn a_float_whose_place_cannot_be_read_stays() {
    let mut s = state();
    s.handle_event(WinEvent::Shown(7), opened(rect(1, 2, 3, 4)));
    let l = layout(0, vec![workspace(vec![])]);
    s.float_window(7, Some("A".to_string()), Some(Bounds { x: 1, y: 2, w: 3, h: 4 }), &l);
    s.handle_event(WinEvent::MoveSizeStart(7), UNSEEN);
    s.handle_event(WinEvent::MoveSizeEnd(7), UNSEEN);
    assert_eq!(
        s.floating.get(&7).map(|f| f.rect),
        Some(FloatRect { x: 1_000_000, y: 2_000_000, w: 3_000_000, h: 4_000_000 })
    );
}

#[test]
fn the_bars_go_back_up_on_every_foreground_change() {
    let mut s = state();
    assert_eq!(
        s.handle_event(WinEvent::Foreground(7), UNSEEN),
        vec![
            Effect::FocusWindow { id: 7, cause: FocusCause::Foreground },
            Effect::RaiseBars,
        ]
    );
    assert_eq!(s.focused, Some(7));
    assert_eq!(s.handle_event(WinEvent::Foreground(7), UNSEEN), vec![Effect::RaiseBars]);
}

#[test]
fn what_follows_a_move_of_the_focus() {
    let mut s = state();
    assert_eq!(
        s.focus_moved(7, FocusCause::Foreground, true),
        vec![Effect::UpdateFocusView(7), Effect::Reflow]
    );
    assert_eq!(
        s.focus_moved(7, FocusCause::Foreground, false),
        vec![Effect::UpdateFocusBorder]
    );
    // A float is not in the layout; hovering it focuses it all the same.
    assert_eq!(
        s.focus_moved(5, FocusCause::Hover, false),
        vec![Effect::UpdateFocusBorder, Effect::SetForeground(5), Effect::RaiseBars]
    );
    assert_eq!(s.focused, Some(5));
    assert_eq!(
        s.focus_moved(7, FocusCause::Hover, true),
        vec![
            Effect::UpdateFocusView(7),
            Effect::Reflow,
            Effect::SetForeground(7),
            Effect::RaiseBars,
        ]
    );
    assert_eq!(s.focused, Some(7));
    assert_eq!(
        s.focus_moved(8, FocusCause::OverviewClick, true),
        vec![Effect::UpdateFocusView(8), Effect::Reflow, Effect::SyncFocus]
    );
    assert_eq!(s.focused, Some(8));
    assert_eq!(
        s.focus_moved(9, FocusCause::OverviewClick, false),
        vec![Effect::Reflow, Effect::SyncFocus]
    );
    assert_eq!(s.focused, Some(8));
}

fn rule() -> WindowRule {
    WindowRule {
        open_floating: false,
        open_workspace: None,
        open_maximized: false,
        open_fullscreen: false,
    }
}

#[test]
fn a_window_without_a_rule_goes_to_the_workspace_shown() {
    let mut s = state();
    let l = layout(0, vec![workspace(vec![])]);
    assert_eq!(
        s.layout_add_window(7, "A".to_string(), None, None, &l),
        vec![
            Effect::AddWindow { device: "A".to_string(), id: 7 },
            Effect::FinishPlacement(7),
        ]
    );
}

#[test]
fn a_rule_sends_a_window_to_its_workspace() {
    let mut s = state();
    let l = layout(0, vec![workspace(vec![])]);
    let r = WindowRule { open_workspace: Some(3), ..rule() };
    assert_eq!(
        s.layout_add_window(7, "A".to_string(), Some(r), None, &l),
        vec![
            Effect::AddWindowToWorkspace { device: "A".to_string(), id: 7, idx: 2 },
            Effect::FinishPlacement(7),
        ]
    );
    assert_eq!(
        s.layout_add_window(7, "B".to_string(), Some(r), None, &l),
        vec![
            Effect::AddWindow { device: "B".to_string(), id: 7 },
            Effect::FinishPlacement(7),
        ]
    );
}

#[test]
fn a_rule_floats_a_window_where_it_is() {
    let mut s = state();
    let l = layout(1, vec![workspace(vec![]), workspace(vec![])]);
    let r = WindowRule { open_floating: true, open_workspace: Some(3), ..rule() };
    let b = Bounds { x: 10, y: 20, w: 30, h: 40 };
    assert_eq!(s.layout_add_window(7, "A".to_string(), Some(r), Some(b), &l), vec![]);
    let fs = s.floating.get(&7).unwrap();
    assert_eq!((fs.device.as_str(), fs.workspace_idx), ("A", 1));
    assert_eq!(fs.rect, FloatRect { x: 10_000_000, y: 20_000_000, w: 30_000_000, h: 40_000_000 });
    // A place that cannot be read: the window is tiled.
    let mut s = state();
    assert_eq!(s.layout_add_window(7, "A".to_string(), Some(r), None, &l).len(), 2);
    assert!(s.floating.is_empty());
}

#[test]
fn the_rest_of_a_rule_is_applied_after_the_placement() {
    let l = layout(0, vec![workspace(vec![vec![1], vec![2, 7]])]);
    let device = "A".to_string();
    let r = WindowRule { open_maximized: true, open_fullscreen: true, ..rule() };
    let min = MinSize { w: 0, h: 512 };
    assert_eq!(
        finish_placement(7, &device, Some(r), min, &l),
        vec![
            Effect::MaximizeColumn { device: "A".to_string(), workspace: 0, column: 1 },
            Effect::SetFullscreen { device: "A".to_string(), workspace: 0, id: 7 },
            Effect::SetMinSize { id: 7, w: 0, h: 512 },
        ]
    );
    // On a workspace that is not on view too.
    let away = layout(0, vec![workspace(vec![vec![1]]), workspace(vec![vec![2], vec![7]])]);
    assert_eq!(
        finish_placement(7, &device, Some(r), MinSize { w: 0, h: 0 }, &away),
        vec![
            Effect::MaximizeColumn { device: "A".to_string(), workspace: 1, column: 1 },
            Effect::SetFullscreen { device: "A".to_string(), workspace: 1, id: 7 },
        ]
    );
    let none = MinSize { w: 0, h: 0 };
    assert_eq!(finish_placement(8, &device, Some(r), none, &l), vec![]);
    assert_eq!(finish_placement(7, &device, None, none, &l), vec![]);
}

#[test]
fn workspaces_are_numbered_from_one() {
    assert_eq!(workspace_index(0), 0);
    assert_eq!(workspace_index(1), 0);
    assert_eq!(workspace_index(2), 1);
    assert_eq!(home_device(None), "");
    assert_eq!(home_device(Some("B".to_string())), "B");
}

#[test]
fn hovering_focuses_only_windows_in_sight() {
    let mut s = state();
    s.handle_event(WinEvent::Shown(7), opened(rect(1, 2, 3, 4)));
    s.handle_event(WinEvent::Shown(8), opened(rect(1, 2, 3, 4)));
    let l = layout(0, vec![workspace(vec![vec![7]]), workspace(vec![vec![8]])]);
    let hover = vec![Effect::FocusWindow { id: 7, cause: FocusCause::Hover }];
    assert_eq!(s.focus_follows_mouse(Some(7), &l), hover);
    assert_eq!(s.focus_follows_mouse(Some(8), &l), vec![]);
    assert_eq!(s.focus_follows_mouse(Some(9), &l), vec![]);
    assert_eq!(s.focus_follows_mouse(None, &l), vec![]);
    s.focused = Some(7);
    assert_eq!(s.focus_follows_mouse(Some(7), &l), vec![]);
    s.focused = None;
    s.handle_event(WinEvent::MoveSizeStart(8), UNSEEN);
    assert_eq!(s.focus_follows_mouse(Some(7), &l), vec![]);
}

#[test]
fn hovering_reaches_floats_on_view() {
    let mut s = state();
    s.handle_event(WinEvent::Shown(7), opened(rect(1, 2, 3, 4)));
    let on = layout(0, vec![workspace(vec![]), workspace(vec![])]);
    s.float_window(7, Some("A".to_string()), Some(Bounds { x: 0, y: 0, w: 9, h: 9 }), &on);
    assert_eq!(s.focus_follows_mouse(Some(7), &on).len(), 1);
    let away = layout(1, vec![workspace(vec![]), workspace(vec![])]);
    assert_eq!(s.focus_follows_mouse(Some(7), &away), vec![]);
}

#[test]
fn a_new_window_is_tiled_or_floats_never_both() {
    let l = layout(0, vec![workspace(vec![])]);
    let b = Some(Bounds { x: 1, y: 2, w: 3, h: 4 });
    for floating in [false, true] {
        let mut s = state();
        s.handle_event(WinEvent::Shown(7), opened(rect(1, 2, 3, 4)));
        let r = WindowRule { open_floating: floating, ..rule() };
        let effects = s.layout_add_window(7, "A".to_string(), Some(r), b, &l);
        assert_eq!(s.floating.contains_key(&7), floating);
        assert_eq!(effects.is_empty(), floating);
        assert!(s.floating.keys().all(|id| s.tracks(*id)));
        s.handle_event(WinEvent::Hidden(7), UNSEEN);
        assert!(s.floating.is_empty());
    }
}

#[test]
fn a_place_is_on_record_for_exactly_the_managed_windows() {
    let mut s = state();
    let events = [
        WinEvent::Shown(1),
        WinEvent::Uncloaked(2),
        WinEvent::Foreground(2),
        WinEvent::MoveSizeStart(1),
        WinEvent::MoveSizeEnd(1),
        WinEvent::Cloaked(2),
        WinEvent::MinimizeEnded(3),
        WinEvent::Destroyed(1),
        WinEvent::Destroyed(4),
    ];
    for event in events {
        s.handle_event(event, opened(rect(1, 2, 3, 4)));
        let places: HashSet<isize> = s.original_rects.keys().copied().collect();
        assert_eq!(s.windows, places);
    }
    assert_eq!(s.managed_ids(), vec![3]);
}

#[test]
fn windows_found_at_startup_are_placed_and_tiled_once() {
    let mut s = state();
    let found = vec![
        Found { id: 7, rect: rect(1, 2, 3, 4) },
        Found { id: 8, rect: rect(5, 6, 7, 8) },
    ];
    assert_eq!(
        s.adopt_existing(&found),
        vec![Effect::PlaceWindow(7), Effect::PlaceWindow(8), Effect::Reflow]
    );
    let known: HashSet<isize> = [7, 8].into_iter().collect();
    assert_eq!(s.windows, known);
    assert_eq!(s.original_rects.get(&8), Some(&rect(5, 6, 7, 8)));
}

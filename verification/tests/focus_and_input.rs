use yumi_wini::effect::Effect;
use yumi_wini::focus::{
    click_in_overview, exit_overviews, handle_key_event, overview_toggled, swap_channels, KeyEvent,
    KeyStep, MouseEvent, MouseKind, MouseStep, RingSight, RingUpdate, VK_ESCAPE,
};
use yumi_wini::geometry::{Bounds, Monitor, Rect};
use yumi_wini::layout::{Column, Layout, MonitorLayout, Workspace};
use yumi_wini::state::{AppState, Ring, Settings};

fn state() -> AppState {
    let monitors = ["A", "B"]
        .iter()
        .map(|d| Monitor {
            device: d.to_string(),
            full: Rect { left: 0, top: 0, right: 1000, bottom: 800 },
            work: Rect { left: 0, top: 0, right: 990, bottom: 760 },
            is_primary: *d == "A",
        })
        .collect();
    let settings = Settings {
        mod_key: "super".to_string(),
        focus_follows_mouse: true,
        slides_enabled: true,
        gaps: 20_000_000,
        ring: Ring { enabled: true, active_color: 0x7fc8ff, width: 4, radius: 8 },
    };
    AppState::new(monitors, settings, None, true, true)
}

fn workspace(tiles: Vec<isize>, overview: bool) -> Workspace {
    let focused = tiles.first().copied();
    Workspace {
        columns: vec![Column { tiles, width: None }],
        focused,
        fullscreen_id: None,
        is_overview: overview,
    }
}

fn layout(overview_a: bool, overview_b: bool) -> Layout {
    let m = |device: &str, workspaces: Vec<Workspace>| MonitorLayout {
        device: device.to_string(),
        active_workspace_idx: 0,
        workspaces,
    };
    Layout {
        monitors: vec![
            m("A", vec![workspace(vec![1], overview_a), workspace(vec![2], false)]),
            m("B", vec![workspace(vec![3], overview_b)]),
        ],
    }
}

fn plain() -> Layout {
    layout(false, false)
}

#[test]
fn the_view_follows_the_focus() {
    let s = state();
    assert_eq!(
        s.update_focus_view(2, &plain()),
        vec![Effect::RefreshView { device: "A".to_string(), workspace: 1, view_width: 990 }]
    );
    assert_eq!(s.update_focus_view(9, &plain()), vec![]);
    let mut s = state();
    s.monitors.remove(0);
    assert_eq!(s.update_focus_view(2, &plain()), vec![]);
}

#[test]
fn the_system_is_told_of_the_focus() {
    let mut s = state();
    let b = Some("B".to_string());
    assert_eq!(
        s.sync_focus_to_os(b.clone(), &plain()),
        vec![Effect::SetForegroundUnderBars(3)]
    );
    s.focused = Some(2);
    // The monitor that holds the focused window shows window 1.
    assert_eq!(
        s.sync_focus_to_os(b.clone(), &plain()),
        vec![Effect::SetForegroundUnderBars(1)]
    );
    s.focused = Some(9);
    assert_eq!(s.sync_focus_to_os(b, &plain()), vec![Effect::SetForegroundUnderBars(3)]);
    assert_eq!(s.sync_focus_to_os(None, &plain()), vec![]);
    assert_eq!(s.sync_focus_to_os(Some("C".to_string()), &plain()), vec![]);
}

#[test]
fn escape_leaves_every_overview() {
    assert_eq!(
        exit_overviews(&layout(true, true)),
        (
            true,
            vec![
                Effect::ExitOverview("A".to_string()),
                Effect::ExitOverview("B".to_string()),
                Effect::Reflow,
            ]
        )
    );
    assert_eq!(exit_overviews(&plain()), (false, vec![]));
}

#[test]
fn a_click_counts_only_in_its_own_overview() {
    assert!(click_in_overview(1, &layout(true, false)).is_some());
    assert!(click_in_overview(2, &layout(true, false)).is_none());
    assert!(click_in_overview(3, &layout(true, false)).is_none());
    assert_eq!(overview_toggled(true), vec![Effect::Reflow]);
    assert_eq!(overview_toggled(false), vec![]);
}

fn key(vk: u32, pressed: bool) -> KeyEvent {
    KeyEvent { vk, pressed, shift: false, ctrl: false, mod_held: false }
}

#[test]
fn keys_are_consumed_or_looked_up() {
    assert_eq!(handle_key_event(key(65, false), &plain()), KeyStep::Ignore);
    assert_eq!(handle_key_event(key(65, true), &plain()), KeyStep::Lookup);
    assert_eq!(handle_key_event(key(VK_ESCAPE, true), &plain()), KeyStep::Lookup);
    assert_eq!(
        handle_key_event(key(VK_ESCAPE, true), &layout(false, true)),
        KeyStep::Consumed(vec![Effect::ExitOverview("B".to_string()), Effect::Reflow])
    );
    assert_eq!(handle_key_event(key(VK_ESCAPE, false), &layout(false, true)), KeyStep::Ignore);
    assert_eq!(handle_key_event(key(65, true), &layout(false, true)), KeyStep::Lookup);
}

fn mouse(kind: MouseKind, wheel_vk: Option<u32>) -> MouseEvent {
    MouseEvent { kind, x: 3, y: 4, wheel_vk, shift: true, ctrl: false, mod_held: true }
}

#[test]
fn the_wheel_acts_as_a_key_and_moves_hover() {
    let mut s = state();
    let press = KeyEvent { vk: 500, pressed: true, shift: true, ctrl: false, mod_held: true };
    assert_eq!(
        s.handle_mouse_event(mouse(MouseKind::WheelV, Some(500))),
        MouseStep::Key(press)
    );
    assert_eq!(
        s.handle_mouse_event(mouse(MouseKind::WheelH, Some(500))),
        MouseStep::Key(press)
    );
    assert_eq!(s.handle_mouse_event(mouse(MouseKind::WheelV, None)), MouseStep::Ignore);
    assert_eq!(
        s.handle_mouse_event(mouse(MouseKind::Move, None)),
        MouseStep::Hover { x: 3, y: 4 }
    );
    s.settings.focus_follows_mouse = false;
    assert_eq!(s.handle_mouse_event(mouse(MouseKind::Move, None)), MouseStep::Ignore);
    s.suspended = true;
    assert_eq!(s.handle_mouse_event(mouse(MouseKind::WheelV, Some(500))), MouseStep::Ignore);
}

fn sight() -> RingSight {
    RingSight {
        alive: true,
        in_flight: None,
        window: Some(Bounds { x: 100, y: 100, w: 420, h: 310 }),
        frame: Some(Bounds { x: 110, y: 100, w: 400, h: 300 }),
    }
}

#[test]
fn the_ring_hugs_the_visible_frame() {
    let mut s = state();
    s.focused = Some(1);
    assert_eq!(
        s.update_focus_border(&None, &plain(), sight()),
        RingUpdate::Around {
            x: 110,
            y: 100,
            w: 400,
            h: 300,
            width: 4,
            radius: 8,
            color: 0xffc87f,
        }
    );
    assert_eq!(swap_channels(0x112233), 0x332211);
}

#[test]
fn the_ring_follows_an_animation() {
    let mut s = state();
    s.focused = Some(1);
    let moving = RingSight { in_flight: Some(Bounds { x: 0, y: 50, w: 420, h: 310 }), ..sight() };
    assert_eq!(
        s.update_focus_border(&None, &plain(), moving),
        RingUpdate::Around {
            x: 10,
            y: 50,
            w: 400,
            h: 300,
            width: 4,
            radius: 8,
            color: 0xffc87f,
        }
    );
}

#[test]
fn when_the_ring_is_hidden() {
    let hidden = |s: &AppState, seen: RingSight| {
        s.update_focus_border(&None, &plain(), seen) == RingUpdate::Hidden
    };
    let focused = |id: isize| {
        let mut s = state();
        s.focused = Some(id);
        s
    };
    assert!(!hidden(&focused(1), sight()));
    assert!(hidden(&focused(2), sight()));
    assert!(hidden(&focused(9), sight()));
    assert!(hidden(&focused(1), RingSight { alive: false, ..sight() }));
    assert!(hidden(&focused(1), RingSight { frame: None, ..sight() }));
    let mut s = focused(1);
    s.settings.ring.enabled = false;
    assert!(hidden(&s, sight()));
    let mut s = focused(1);
    s.interacting_window = Some(1);
    assert!(hidden(&s, sight()));
    let mut s = focused(1);
    s.suspended = true;
    assert!(hidden(&s, sight()));
    let mut s = focused(1);
    s.has_focus_border = false;
    assert_eq!(s.update_focus_border(&None, &plain(), sight()), RingUpdate::Absent);
}

#[test]
fn whose_ring_it_is() {
    let mut s = state();
    assert_eq!(s.ring_window(&Some("B".to_string()), &plain()), Some(3));
    assert_eq!(s.ring_window(&None, &plain()), Some(1));
    s.focused = Some(7);
    assert_eq!(s.ring_window(&None, &plain()), Some(7));
    s.focused = None;
    s.monitors.clear();
    assert_eq!(s.ring_window(&None, &plain()), None);
}

#[test]
fn the_workspace_indicator_counts_from_one() {
    let mut s = state();
    let b = "B".to_string();
    assert_eq!(
        s.show_workspace_overlay(&b, 2),
        vec![Effect::ShowWorkspace { device: "B".to_string(), number: 3 }]
    );
    assert_eq!(s.show_workspace_overlay(&"C".to_string(), 2), vec![]);
    s.has_overlay = false;
    assert_eq!(s.show_workspace_overlay(&b, 2), vec![]);
}

#[test]
fn lookups_in_the_layout() {
    let l = plain();
    assert_eq!(l.device_of(2), Some("A".to_string()));
    assert_eq!(l.device_of(9), None);
    assert!(l.is_on_view(1));
    assert!(!l.is_on_view(2));
    assert_eq!(l.monitors[0].workspace_of(2), Some(1));
    assert_eq!(l.monitors[0].window_ids(), vec![1, 2]);
    let ws = Workspace {
        columns: vec![
            Column { tiles: vec![5], width: None },
            Column { tiles: vec![6, 7], width: None },
        ],
        focused: None,
        fullscreen_id: None,
        is_overview: false,
    };
    assert_eq!(ws.find(7), Some((1, 1)));
    assert_eq!(ws.find(5), Some((0, 0)));
    assert_eq!(ws.find(8), None);
    assert_eq!(ws.window_ids(), vec![5, 6, 7]);
}

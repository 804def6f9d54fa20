use std::collections::HashSet;
use yumi_wini::command::{launch_failed, split_command};
use yumi_wini::effect::Effect;
use yumi_wini::error::{message_step, message_window_error, AppError, LoopStep};
use yumi_wini::geometry::{Bounds, Monitor, Rect};
use yumi_wini::layout::{Column, Layout, MonitorLayout, Workspace};
use yumi_wini::lifecycle::Found;
use yumi_wini::reload::handle_tray_events;
use yumi_wini::state::{AppState, Ring, Settings};
use yumi_wini::tray::TrayAction;

fn monitor(device: &str) -> Monitor {
    Monitor {
        device: device.to_string(),
        full: Rect { left: 0, top: 0, right: 1000, bottom: 800 },
        work: Rect { left: 0, top: 0, right: 1000, bottom: 760 },
        is_primary: false,
    }
}

fn settings(mod_key: &str) -> Settings {
    Settings {
        mod_key: mod_key.to_string(),
        focus_follows_mouse: false,
        slides_enabled: true,
        gaps: 20_000_000,
        ring: Ring { enabled: true, active_color: 0, width: 4, radius: 8 },
    }
}

fn state(devices: &[&str]) -> AppState {
    let monitors = devices.iter().map(|d| monitor(d)).collect();
    AppState::new(monitors, settings("super"), Some(5), true, true)
}

fn holding(device: &str, workspaces: Vec<Vec<isize>>) -> MonitorLayout {
    MonitorLayout {
        device: device.to_string(),
        active_workspace_idx: 0,
        workspaces: workspaces
            .into_iter()
            .map(|tiles| Workspace {
                columns: vec![Column { tiles, width: None }],
                focused: None,
                fullscreen_id: None,
                is_overview: false,
            })
            .collect(),
    }
}

#[test]
fn a_command_is_parted_at_its_first_space() {
    assert_eq!(split_command("wt"), ("wt".to_string(), None));
    assert_eq!(
        split_command("wt -d C:\\x y"),
        ("wt".to_string(), Some("-d C:\\x y".to_string()))
    );
    assert_eq!(split_command("wt "), ("wt".to_string(), Some(String::new())));
    assert_eq!(split_command(" wt"), (String::new(), Some("wt".to_string())));
    assert_eq!(split_command(""), (String::new(), None));
    assert_eq!(split_command("é ü"), ("é".to_string(), Some("ü".to_string())));
    for cmd in ["wt", "a b c", " x", "x "] {
        let joined = match split_command(cmd) {
            (app, Some(args)) => format!("{app} {args}"),
            (app, None) => app,
        };
        assert_eq!(joined, cmd);
    }
}

#[test]
fn small_numbers_mean_a_failed_launch() {
    assert!(launch_failed(0));
    assert!(launch_failed(32));
    assert!(!launch_failed(33));
}

fn three() -> Layout {
    Layout {
        monitors: vec![
            holding("A", vec![vec![1, 2], vec![3]]),
            holding("B", vec![vec![4]]),
            holding("C", vec![vec![]]),
        ],
    }
}

fn to(device: &str, id: isize) -> Effect {
    Effect::AddWindow { device: device.to_string(), id }
}

#[test]
fn windows_of_a_gone_monitor_are_rehomed() {
    let s = state(&["C", "B"]);
    // The first monitor of the layout that is there.
    assert_eq!(
        s.rehome_windows("A".to_string(), &three()),
        vec![Effect::RemoveMonitor("A".to_string()), to("B", 1), to("B", 2), to("B", 3)]
    );
    assert_eq!(
        state(&["A", "B"]).rehome_windows("C".to_string(), &three()),
        vec![Effect::RemoveMonitor("C".to_string())]
    );
    assert_eq!(s.rehome_windows("D".to_string(), &three()), vec![]);
    // The layout knows none of the monitors yet.
    let last = Layout { monitors: vec![holding("A", vec![vec![1]])] };
    assert_eq!(
        s.rehome_windows("A".to_string(), &last),
        vec![Effect::RemoveMonitor("A".to_string()), to("C", 1)]
    );
    // There is no monitor at all.
    assert_eq!(
        state(&[]).rehome_windows("A".to_string(), &last),
        vec![Effect::RemoveMonitor("A".to_string())]
    );
}

#[test]
fn a_display_change_adopts_rehomes_and_tiles() {
    let mut s = state(&["A", "B"]);
    assert_eq!(
        s.on_display_change(vec![monitor("B"), monitor("C")], &three()),
        vec![
            Effect::AddMonitor("B".to_string()),
            Effect::AddMonitor("C".to_string()),
            Effect::RehomeWindows("A".to_string()),
            Effect::Reflow,
        ]
    );
    let devices: Vec<&str> = s.monitors.iter().map(|m| m.device.as_str()).collect();
    assert_eq!(devices, vec!["B", "C"]);
}

#[test]
fn windows_survive_the_change_of_every_monitor() {
    let mut s = state(&["A"]);
    let old = Layout { monitors: vec![holding("A", vec![vec![1]])] };
    assert_eq!(
        s.on_display_change(vec![monitor("B")], &old),
        vec![
            Effect::AddMonitor("B".to_string()),
            Effect::RehomeWindows("A".to_string()),
            Effect::Reflow,
        ]
    );
    let adopted =
        Layout { monitors: vec![holding("A", vec![vec![1]]), holding("B", vec![vec![]])] };
    assert_eq!(
        s.rehome_windows("A".to_string(), &adopted),
        vec![Effect::RemoveMonitor("A".to_string()), to("B", 1)]
    );
}

#[test]
fn floats_of_a_gone_monitor_are_rehomed() {
    let mut s = state(&["A", "B"]);
    let far = Bounds { x: 5000, y: 100, w: 400, h: 300 };
    let near = Bounds { x: 10, y: 20, w: 400, h: 300 };
    s.float_window(7, Some("A".to_string()), Some(far), &three());
    s.float_window(8, Some("B".to_string()), Some(near), &three());
    let mut l = three();
    l.monitors[1].workspaces.push(holding("x", vec![vec![]]).workspaces.remove(0));
    l.monitors[1].active_workspace_idx = 1;
    s.on_display_change(vec![monitor("B")], &l);
    let moved = s.floating.get(&7).unwrap();
    assert_eq!((moved.device.as_str(), moved.workspace_idx), ("B", 1));
    // Pulled into reach: 100 px of it are on the work area, which is 1000 px wide.
    assert_eq!((moved.rect.x, moved.rect.y), (900 * 1_000_000, 100 * 1_000_000));
    assert!(s.is_float_on_view(7, &l));
    let stayed = s.floating.get(&8).unwrap();
    assert_eq!((stayed.device.as_str(), stayed.workspace_idx), ("B", 0));
    assert_eq!(stayed.rect.x, 10 * 1_000_000);
    // A float whose monitor was never known is left alone.
    s.float_window(9, Some("Z".to_string()), Some(near), &l);
    s.on_display_change(vec![monitor("B"), monitor("C")], &l);
    assert_eq!(s.floating.get(&9).unwrap().device, "Z");
    // Without any monitor they wait where they are.
    s.on_display_change(vec![], &l);
    assert_eq!(s.floating.get(&7).unwrap().device, "B");
}

#[test]
fn a_config_file_is_loaded_once_per_change() {
    let mut s = state(&["A"]);
    assert!(!s.maybe_reload_config(None));
    assert!(!s.maybe_reload_config(Some(5)));
    assert!(s.maybe_reload_config(Some(6)));
    assert!(!s.maybe_reload_config(Some(6)));
    // Touched back to an old time.
    assert!(s.maybe_reload_config(Some(5)));
    assert_eq!(s.config_mtime, Some(5));
}

#[test]
fn a_forced_reload_always_loads() {
    let mut s = state(&["A"]);
    assert!(s.force_reload(Some(5)));
    assert_eq!(s.config_mtime, Some(5));
    assert!(!s.force_reload(None));
    assert_eq!(s.config_mtime, None);
}

#[test]
fn a_configuration_is_applied_live() {
    let mut s = state(&["A"]);
    let mut next = settings("super");
    next.slides_enabled = false;
    next.gaps = 8_000_000;
    assert_eq!(
        s.apply_config(next),
        vec![
            Effect::SetAnimationParams,
            Effect::SetLayoutParams,
            Effect::UpdateBinds,
            Effect::Reflow,
        ]
    );
    assert!(!s.settings.slides_enabled);
    assert_eq!(s.settings.gaps, 8_000_000);
    assert_eq!(
        s.apply_config(settings("alt")),
        vec![
            Effect::SetAnimationParams,
            Effect::SetLayoutParams,
            Effect::SetModKey,
            Effect::UpdateBinds,
            Effect::Reflow,
        ]
    );
    assert_eq!(s.settings.mod_key, "alt");
}

#[test]
fn tray_actions_are_performed_in_order() {
    assert_eq!(
        handle_tray_events(&vec![
            TrayAction::Quit,
            TrayAction::OpenConfig,
            TrayAction::ReloadConfig,
            TrayAction::ToggleAutostart,
        ]),
        vec![
            Effect::Quit,
            Effect::OpenConfig,
            Effect::ReloadConfig,
            Effect::ToggleAutostart,
        ]
    );
    assert_eq!(handle_tray_events(&vec![]), vec![]);
}

#[test]
fn the_desktop_is_left_as_it_was_found() {
    let mut s = state(&["A"]);
    let r = |n: i32| Rect { left: n, top: n + 1, right: n + 10, bottom: n + 21 };
    s.adopt_existing(&vec![Found { id: 1, rect: r(0) }, Found { id: 2, rect: r(100) }]);
    s.borderless.insert(1, 0x00C0_0000);
    s.hidden_by_us.insert(1);
    let order = s.managed_ids();
    assert_eq!(order.len(), 2);
    let alive: HashSet<isize> = [1].into_iter().collect();
    assert_eq!(
        s.restore_all(&order, &alive),
        vec![
            Effect::RestoreBorders { id: 1, removed: 0x00C0_0000 },
            Effect::RestoreBounds { id: 1, bounds: Bounds { x: 0, y: 1, w: 10, h: 20 } },
            Effect::Show(1),
        ]
    );
    assert!(s.borderless.is_empty());
    assert_eq!(s.original_rects.keys().copied().collect::<Vec<isize>>(), vec![1]);
}

#[test]
fn the_shutdown_has_a_fixed_order() {
    let mut s = state(&["A"]);
    assert_eq!(
        s.shut_down(),
        vec![
            Effect::UninstallInput,
            Effect::DropEventHooks,
            Effect::DropOverlay,
            Effect::DropFocusBorder,
            Effect::RestoreWindows,
        ]
    );
    assert_eq!(
        s.shut_down(),
        vec![Effect::UninstallInput, Effect::DropEventHooks, Effect::RestoreWindows]
    );
}

#[test]
fn the_message_loop_dispatches_exits_or_fails() {
    assert_eq!(message_step(1), LoopStep::Dispatch);
    assert_eq!(message_step(0), LoopStep::Exit);
    assert_eq!(
        message_step(-1),
        LoopStep::Fail(AppError("GetMessageW failed: -1".to_string()))
    );
    assert_eq!(
        message_step(i32::MIN),
        LoopStep::Fail(AppError("GetMessageW failed: -2147483648".to_string()))
    );
    assert_eq!(message_window_error().message(), "failed to create the message window");
    assert_eq!(AppError::from("no hook".to_string()).message(), "no hook");
}

use yumi_wini::tray::{
    autostart_enabled, autostart_toggled, autostart_value, autostart_value_size, set_autostart,
    MenuEntry, Tray, TrayAction,
};

fn tray() -> Tray {
    Tray::new("1.2.3".to_string(), true)
}

fn item(id: &str, label: &str, enabled: bool, checked: Option<bool>) -> MenuEntry {
    MenuEntry::Item { id: id.to_string(), label: label.to_string(), enabled, checked }
}

#[test]
fn the_menu_from_top_to_bottom() {
    assert_eq!(
        tray().entries(),
        vec![
            item("header", "yumi-wini v1.2.3", false, None),
            item("open-config", "打开配置文件", true, None),
            item("reload-config", "重载配置", true, None),
            MenuEntry::Separator,
            item("toggle-autostart", "开机自启动", true, Some(true)),
            MenuEntry::Separator,
            item("quit", "退出", true, None),
        ]
    );
    assert_eq!(tray().title(), "yumi-wini v1.2.3");
    assert_eq!(tray().tooltip(), "yumi-wini v1.2.3 — 右键打开菜单");
}

#[test]
fn menu_events_become_actions_in_order() {
    let clicked = ["quit", "header", "open-config", "toggle-autostart", "x", "reload-config"];
    let ids: Vec<String> = clicked
        .iter()
        .map(|s| s.to_string())
        .collect();
    assert_eq!(
        tray().poll_events(&ids),
        vec![
            TrayAction::Quit,
            TrayAction::OpenConfig,
            TrayAction::ToggleAutostart,
            TrayAction::ReloadConfig,
        ]
    );
    assert_eq!(tray().poll_events(&vec![]), vec![]);
}

#[test]
fn the_check_mark_follows_the_autostart_state() {
    let mut t = tray();
    t.set_autostart_checked(false);
    assert_eq!(t.entries()[4], item("toggle-autostart", "开机自启动", true, Some(false)));
    assert_eq!(t.title(), "yumi-wini v1.2.3");
}

#[test]
fn the_autostart_entry() {
    assert!(autostart_enabled(0));
    assert!(!autostart_enabled(2));
    // Longer than a buffer, but there.
    assert!(autostart_enabled(234));
    assert!(autostart_toggled(false));
    assert!(!autostart_toggled(true));
    assert_eq!(set_autostart(true, Some(0)), Some(true));
    assert_eq!(set_autostart(false, Some(0)), Some(false));
    assert_eq!(set_autostart(true, Some(5)), None);
    assert_eq!(set_autostart(true, Some(2)), None);
    // Nothing there to remove.
    assert_eq!(set_autostart(false, Some(2)), Some(false));
    assert_eq!(set_autostart(false, Some(5)), None);
    assert_eq!(set_autostart(true, None), None);
}

#[test]
fn the_autostart_value_is_null_terminated_utf16() {
    assert_eq!(autostart_value("C:\\é"), vec![0x43, 0x3A, 0x5C, 0xE9, 0]);
    assert_eq!(autostart_value("😀"), vec![0xD83D, 0xDE00, 0]);
    assert_eq!(autostart_value(""), vec![0]);
    let text = "C:\\工具\\yumi 😀.exe";
    let mut expected: Vec<u16> = text.encode_utf16().collect();
    expected.push(0);
    assert_eq!(autostart_value(text), expected);
    assert_eq!(autostart_value_size(5), 10);
}

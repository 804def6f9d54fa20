//! The tray icon's menu: its entries, the actions they stand for, and
//! the autostart entry that one of them toggles.

use vstd::prelude::*;

verus! {

/// A tray-menu action the app should perform.
#[derive(Debug, Clone, Copy, PartialEq, Eq, Structural)]
pub enum TrayAction {
    /// Open the config file in the system default editor.
    OpenConfig,
    /// Reload the config right now (don't wait for the poll).
    ReloadConfig,
    /// Flip the autostart state.
    ToggleAutostart,
    /// Quit the program.
    Quit,
}

/// A line of the menu.
#[derive(Debug, PartialEq, Eq)]
pub enum MenuEntry {
    Item { id: String, label: String, enabled: bool, checked: Option<bool> },
    Separator,
}

/// What a line of the menu shows and is called.
pub enum EntryView {
    Item { id: Seq<char>, label: Seq<char>, enabled: bool, checked: Option<bool> },
    Separator,
}

impl View for MenuEntry {
    type V = EntryView;

    open spec fn view(&self) -> EntryView {
        match *self {
            MenuEntry::Item { id, label, enabled, checked } => EntryView::Item {
                id: id@,
                label: label@,
                enabled,
                checked,
            },
            MenuEntry::Separator => EntryView::Separator,
        }
    }
}

/// The action a menu id stands for.
pub open spec fn action_of(id: Seq<char>) -> Option<TrayAction> {
    if id == "open-config"@ {
        Some(TrayAction::OpenConfig)
    } else if id == "reload-config"@ {
        Some(TrayAction::ReloadConfig)
    } else if id == "toggle-autostart"@ {
        Some(TrayAction::ToggleAutostart)
    } else if id == "quit"@ {
        Some(TrayAction::Quit)
    } else {
        None
    }
}

/// The actions of a run of menu events, in order; ids that stand for
/// nothing are passed over.
pub open spec fn actions_of(ids: Seq<String>) -> Seq<TrayAction>
    decreases ids.len(),
{
    if ids.len() == 0 {
        Seq::empty()
    } else {
        match action_of(ids.last()@) {
            Some(a) => actions_of(ids.drop_last()).push(a),
            None => actions_of(ids.drop_last()),
        }
    }
}

fn plain(id: &str, label: &str) -> (e: MenuEntry)
    ensures
        e@ == (EntryView::Item { id: id@, label: label@, enabled: true, checked: None }),
{
    MenuEntry::Item { id: id.to_owned(), label: label.to_owned(), enabled: true, checked: None }
}

fn menu_action(id: &String) -> (a: Option<TrayAction>)
    ensures
        a == action_of(id@),
{
    if *id == "open-config".to_owned() {
        Some(TrayAction::OpenConfig)
    } else if *id == "reload-config".to_owned() {
        Some(TrayAction::ReloadConfig)
    } else if *id == "toggle-autostart".to_owned() {
        Some(TrayAction::ToggleAutostart)
    } else if *id == "quit".to_owned() {
        Some(TrayAction::Quit)
    } else {
        None
    }
}

/// The tray menu's state.
#[derive(Debug, PartialEq, Eq)]
pub struct Tray {
    /// Program version, shown in the header and the tooltip.
    pub version: String,
    /// Is the autostart item checked?
    pub autostart_checked: bool,
}

impl Tray {
    pub open spec fn title_of(self) -> Seq<char> {
        "yumi-wini v"@ + self.version@
    }

    /// The menu, top to bottom.
    pub open spec fn menu(self) -> Seq<EntryView> {
        seq![
            EntryView::Item {
                id: "header"@,
                label: self.title_of(),
                enabled: false,
                checked: None,
            },
            EntryView::Item {
                id: "open-config"@,
                label: "打开配置文件"@,
                enabled: true,
                checked: None,
            },
            EntryView::Item {
                id: "reload-config"@,
                label: "重载配置"@,
                enabled: true,
                checked: None,
            },
            EntryView::Separator,
            EntryView::Item {
                id: "toggle-autostart"@,
                label: "开机自启动"@,
                enabled: true,
                checked: Some(self.autostart_checked),
            },
            EntryView::Separator,
            EntryView::Item { id: "quit"@, label: "退出"@, enabled: true, checked: None },
        ]
    }

    /// A menu that reflects the current autostart state.
    pub fn new(version: String, autostart: bool) -> (tray: Tray)
        ensures
            tray.version == version,
            tray.autostart_checked == autostart,
    {
        Tray { version, autostart_checked: autostart }
    }

    /// Name and version.
    pub fn title(&self) -> (text: String)
        ensures
            text@ == self.title_of(),
    {
        let mut text: String = "yumi-wini v".to_owned();
        text.append(self.version.as_str());
        text
    }

    /// The text shown when the pointer rests on the icon.
    pub fn tooltip(&self) -> (text: String)
        ensures
            text@ == self.title_of() + " — 右键打开菜单"@,
    {
        let mut text = self.title();
        text.append(" — 右键打开菜单");
        text
    }

    /// The lines of the menu.
    pub fn entries(&self) -> (entries: Vec<MenuEntry>)
        ensures
            entries@.map_values(|e: MenuEntry| e@) == self.menu(),
    {
        let mut entries: Vec<MenuEntry> = Vec::new();
        entries.push(
            MenuEntry::Item {
                id: "header".to_owned(),
                label: self.title(),
                enabled: false,
                checked: None,
            },
        );
        entries.push(plain("open-config", "打开配置文件"));
        entries.push(plain("reload-config", "重载配置"));
        entries.push(MenuEntry::Separator);
        entries.push(
            MenuEntry::Item {
                id: "toggle-autostart".to_owned(),
                label: "开机自启动".to_owned(),
                enabled: true,
                checked: Some(self.autostart_checked),
            },
        );
        entries.push(MenuEntry::Separator);
        entries.push(plain("quit", "退出"));
        assert(entries@.map_values(|e: MenuEntry| e@) =~= self.menu());
        entries
    }

    /// The actions that the menu events drained from the queue ask for.
    pub fn poll_events(&mut self, ids: &Vec<String>) -> (actions: Vec<TrayAction>)
        ensures
            actions@ == actions_of(ids@),
            *final(self) == *old(self),
    {
        let mut actions: Vec<TrayAction> = Vec::new();
        let mut i: usize = 0;
        while i < ids.len()
            invariant
                i <= ids@.len(),
                actions@ == actions_of(ids@.take(i as int)),
            decreases ids@.len() - i,
        {
            assert(ids@.take(i + 1).drop_last() =~= ids@.take(i as int));
            if let Some(a) = menu_action(&ids[i]) {
                actions.push(a);
            }
            i = i + 1;
        }
        assert(ids@.take(i as int) =~= ids@);
        actions
    }

    /// Reflect a new autostart state on the checkable menu item.
    pub fn set_autostart_checked(&mut self, on: bool)
        ensures
            final(self).autostart_checked == on,
            final(self).version == old(self).version,
    {
        self.autostart_checked = on;
    }
}

/// Status of a registry call that succeeded.
pub const REGISTRY_SUCCESS: u32 = 0;

/// Status of a registry call on an entry that does not exist.
pub const REGISTRY_NOT_FOUND: u32 = 2;

/// Status of a read of an entry that is longer than the buffer.
pub const REGISTRY_MORE_DATA: u32 = 234;

/// Does the autostart entry exist? It does when reading it succeeded,
/// or failed only for its length.
pub fn autostart_enabled(status: u32) -> (enabled: bool)
    ensures
        enabled == (status == REGISTRY_SUCCESS || status == REGISTRY_MORE_DATA),
{
    status == REGISTRY_SUCCESS || status == REGISTRY_MORE_DATA
}

/// The outcome of creating (`on`) or removing the autostart entry: the
/// new state where the registry call succeeded. An entry that is not
/// there needs no removing. `None` for the status says that no call was
/// made, for want of the program's own path.
pub fn set_autostart(on: bool, status: Option<u32>) -> (outcome: Option<bool>)
    ensures
        outcome == (if status == Some(REGISTRY_SUCCESS) || (!on && status == Some(
            REGISTRY_NOT_FOUND,
        )) {
            Some(on)
        } else {
            None
        }),
{
    match status {
        Some(code) => if code == REGISTRY_SUCCESS || (!on && code == REGISTRY_NOT_FOUND) {
            Some(on)
        } else {
            None
        },
        None => None,
    }
}

/// The UTF-16 code units of one character.
pub open spec fn char_units(c: char) -> Seq<u16> {
    if (c as u32) < 0x10000 {
        seq![(c as u32) as u16]
    } else {
        seq![
            (0xD800 + (c as u32 - 0x10000) / 0x400) as u16,
            (0xDC00 + (c as u32 - 0x10000) % 0x400) as u16,
        ]
    }
}

/// A text in UTF-16.
pub open spec fn utf16(s: Seq<char>) -> Seq<u16>
    decreases s.len(),
{
    if s.len() == 0 {
        Seq::empty()
    } else {
        utf16(s.drop_last()) + char_units(s.last())
    }
}

/// The registry value that starts `exe`: its path in UTF-16, closed by
/// a null.
pub fn autostart_value(exe: &str) -> (value: Vec<u16>)
    ensures
        value@ == utf16(exe@).push(0),
{
    let mut value: Vec<u16> = Vec::new();
    let n: usize = exe.unicode_len();
    let mut i: usize = 0;
    while i < n
        invariant
            i <= n,
            n == exe@.len(),
            value@ == utf16(exe@.take(i as int)),
        decreases n - i,
    {
        let code: u32 = exe.get_char(i) as u32;
        assert(exe@.take(i + 1).drop_last() =~= exe@.take(i as int));
        if code < 0x10000 {
            value.push(code as u16);
        } else {
            let rest: u32 = code - 0x10000;
            value.push((0xD800 + rest / 0x400) as u16);
            value.push((0xDC00 + rest % 0x400) as u16);
        }
        assert(value@ =~= utf16(exe@.take(i + 1)));
        i = i + 1;
    }
    assert(exe@.take(i as int) =~= exe@);
    value.push(0);
    value
}

/// Size of such a value in bytes.
pub fn autostart_value_size(units: usize) -> (bytes: u32)
    requires
        2 * units <= u32::MAX,
    ensures
        bytes == 2 * units,
{
    (units * 2) as u32
}

/// The state that toggling autostart aims for.
pub fn autostart_toggled(enabled: bool) -> (now: bool)
    ensures
        now == !enabled,
{
    !enabled
}

} // verus!

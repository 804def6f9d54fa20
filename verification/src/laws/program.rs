//! The configuration, the tray, the bars and the texts of the program.

use crate::command::LAUNCH_FAILURE;
use crate::effect::Effect;
use crate::error::{decimal, digit, digits};
use crate::focus::VK_ESCAPE;
use crate::geometry::{Monitor, Rect, TileRect, WindowId};
use crate::placement::{
    bar_shaped, bare, bars_of, decorated, decorations, is_bar, tile_in, BarCandidate, BAR_STYLE,
    FULLSCREEN_STRIP,
};
use crate::reload::tray_effect;
use crate::state::{Settings, StateView};
use crate::tray::{
    action_of, actions_of, char_units, utf16, Tray, TrayAction, REGISTRY_MORE_DATA,
    REGISTRY_NOT_FOUND, REGISTRY_SUCCESS,
};
use vstd::prelude::*;

verus! {

/// A file is loaded exactly when it can be read and its time is not the
/// one on record; the time that was read goes on record, and nothing
/// else changes.
pub proof fn law_when_a_file_is_loaded(v: StateView, mtime: i128)
    ensures
        v.outdated(Some(mtime)) <==> v.config_mtime != Some(mtime),
        v.polled(Some(mtime)) == (StateView { config_mtime: Some(mtime), ..v }),
        v.polled(None) == v,
{
}

/// Applying a configuration hands on the animation and the layout
/// parameters, the Mod key exactly if it is another, the binds, and
/// tiles all, in this order and nothing else.
pub proof fn law_configurations_are_applied_in_order(v: StateView, settings: Settings)
    ensures
        settings.mod_key@ == v.settings.mod_key@ ==> v.config_effects(settings) == seq![
            Effect::SetAnimationParams,
            Effect::SetLayoutParams,
            Effect::UpdateBinds,
            Effect::Reflow,
        ],
        settings.mod_key@ != v.settings.mod_key@ ==> v.config_effects(settings) == seq![
            Effect::SetAnimationParams,
            Effect::SetLayoutParams,
            Effect::SetModKey,
            Effect::UpdateBinds,
            Effect::Reflow,
        ],
{
    let e = v.config_effects(settings);
    if settings.mod_key@ == v.settings.mod_key@ {
        assert(e =~= seq![
            Effect::SetAnimationParams,
            Effect::SetLayoutParams,
            Effect::UpdateBinds,
            Effect::Reflow,
        ]);
    } else {
        assert(e =~= seq![
            Effect::SetAnimationParams,
            Effect::SetLayoutParams,
            Effect::SetModKey,
            Effect::UpdateBinds,
            Effect::Reflow,
        ]);
    }
}

/// The codes that the system speaks in: Escape, the results that mean
/// that a launch failed, and the answers of the registry.
pub proof fn law_codes()
    ensures
        VK_ESCAPE == 27,
        LAUNCH_FAILURE == 32,
        REGISTRY_SUCCESS == 0,
        REGISTRY_NOT_FOUND == 2,
        REGISTRY_MORE_DATA == 234,
{
}

/// Each entry of the tray menu does what it says.
pub proof fn law_tray_entries_do_what_they_say()
    ensures
        tray_effect(TrayAction::OpenConfig) == Effect::OpenConfig,
        tray_effect(TrayAction::ReloadConfig) == Effect::ReloadConfig,
        tray_effect(TrayAction::ToggleAutostart) == Effect::ToggleAutostart,
        tray_effect(TrayAction::Quit) == Effect::Quit,
        action_of("open-config"@) == Some(TrayAction::OpenConfig),
        action_of("reload-config"@) == Some(TrayAction::ReloadConfig),
        action_of("toggle-autostart"@) == Some(TrayAction::ToggleAutostart),
        action_of("quit"@) == Some(TrayAction::Quit),
        action_of("header"@) is None,
{
    reveal_strlit("open-config");
    reveal_strlit("reload-config");
    reveal_strlit("toggle-autostart");
    reveal_strlit("quit");
    reveal_strlit("header");
    assert("open-config"@.len() == 11);
    assert("reload-config"@.len() == 13);
    assert("toggle-autostart"@.len() == 16);
    assert("quit"@.len() == 4);
    assert("header"@.len() == 6);
}

/// Exactly four names stand for something: any other is passed over.
pub proof fn law_other_names_stand_for_nothing(id: Seq<char>)
    ensures
        action_of(id) is Some <==> id == "open-config"@ || id == "reload-config"@ || id
            == "toggle-autostart"@ || id == "quit"@,
{
}

proof fn lemma_actions_join(a: Seq<String>, b: Seq<String>)
    ensures
        actions_of(a + b) == actions_of(a) + actions_of(b),
    decreases b.len(),
{
    if b.len() == 0 {
        assert(a + b =~= a);
        assert(actions_of(a + b) =~= actions_of(a) + actions_of(b));
    } else {
        lemma_actions_join(a, b.drop_last());
        assert((a + b).drop_last() =~= a + b.drop_last());
        assert(actions_of(a + b) =~= actions_of(a) + actions_of(b));
    }
}

/// Menu events become actions one by one, in order.
pub proof fn law_menu_events_keep_their_order(a: Seq<String>, b: Seq<String>, id: String)
    ensures
        actions_of(a + b) == actions_of(a) + actions_of(b),
        actions_of(seq![id]) == (match action_of(id@) {
            Some(action) => seq![action],
            None => Seq::empty(),
        }),
{
    lemma_actions_join(a, b);
    let one = seq![id];
    assert(one.drop_last() =~= Seq::<String>::empty());
    assert(actions_of(one.drop_last()) =~= Seq::<TrayAction>::empty());
    assert(actions_of(one) =~= (match action_of(id@) {
        Some(action) => seq![action],
        None => Seq::empty(),
    }));
}

/// The decorations are the caption, the sizing frame, the system menu
/// and the two boxes. Stripping takes exactly these bits, and putting
/// back adds exactly those of them that were taken: no other bit of the
/// style is ever touched.
pub proof fn law_only_decorations_are_touched(style: u32, removed: u32)
    ensures
        FULLSCREEN_STRIP == 0x00CF_0000,
        BAR_STYLE == 0x0800_0080,
        bare(style) == style & 0xFF30_FFFF,
        decorations(style) == style & 0x00CF_0000,
        decorated(style, removed) & 0xFF30_FFFF == style & 0xFF30_FFFF,
        decorated(style, removed) & 0x00CF_0000 == (style | removed) & 0x00CF_0000,
{
    assert(0x00C0_0000u32 | 0x0004_0000 | 0x0008_0000 | 0x0002_0000 | 0x0001_0000 == 0x00CF_0000)
        by (bit_vector);
    assert(0x0000_0080u32 | 0x0800_0000 == 0x0800_0080) by (bit_vector);
    assert(!0x00CF_0000u32 == 0xFF30_FFFF) by (bit_vector);
    assert((style | (removed & 0x00CF_0000)) & 0xFF30_FFFF == style & 0xFF30_FFFF) by (bit_vector);
    assert((style | (removed & 0x00CF_0000)) & 0x00CF_0000 == (style | removed) & 0x00CF_0000)
        by (bit_vector);
}

/// The rectangle reaches into the strip of that monitor between its edge
/// and its work area, above or below.
pub open spec fn in_bar_zone(r: Rect, m: Monitor) -> bool {
    &&& r.left < m.full.right && m.full.left < r.right
    &&& {
        ||| m.full.top < m.work.top && r.top < m.work.top && m.full.top < r.bottom
        ||| m.work.bottom < m.full.bottom && r.top < m.full.bottom && m.work.bottom < r.bottom
    }
}

/// An extent, counted as one where it is less.
pub open spec fn at_least_one(n: int) -> int {
    if n >= 1 {
        n
    } else {
        1
    }
}

/// The rectangle reaches into the bar zone of the monitor, spans at
/// least half its width and at most a quarter of its height.
pub open spec fn is_bar_on(r: Rect, m: Monitor) -> bool {
    &&& in_bar_zone(r, m)
    &&& 2 * at_least_one(r.right - r.left) >= at_least_one(m.full.right - m.full.left)
    &&& 4 * at_least_one(r.bottom - r.top) <= at_least_one(m.full.bottom - m.full.top)
}

/// A window is a bar exactly when it is visible, of another process, a
/// tool window that takes no focus, and lies on some monitor as a bar
/// does.
pub proof fn law_what_is_a_bar(c: BarCandidate, own: u32, monitors: Seq<Monitor>)
    ensures
        is_bar(c, own, monitors) <==> {
            &&& c.visible
            &&& c.process != own
            &&& c.ex_style & 0x0800_0080 == 0x0800_0080
            &&& c.rect is Some
            &&& exists|i: int|
                0 <= i < monitors.len() && is_bar_on(c.rect->0, #[trigger] monitors[i])
        },
{
    assert(0x0000_0080u32 | 0x0800_0000 == 0x0800_0080) by (bit_vector);
    if let Some(rect) = c.rect {
        assert forall|i: int| 0 <= i < monitors.len() implies bar_shaped(
            rect,
            #[trigger] monitors[i],
        ) == is_bar_on(rect, monitors[i]) by {}
    }
}

proof fn lemma_bars_join(
    a: Seq<BarCandidate>,
    b: Seq<BarCandidate>,
    own: u32,
    monitors: Seq<Monitor>,
)
    ensures
        bars_of(a + b, own, monitors) == bars_of(a, own, monitors) + bars_of(b, own, monitors),
    decreases b.len(),
{
    if b.len() == 0 {
        assert(a + b =~= a);
        assert(bars_of(a + b, own, monitors) =~= bars_of(a, own, monitors) + bars_of(
            b,
            own,
            monitors,
        ));
    } else {
        lemma_bars_join(a, b.drop_last(), own, monitors);
        assert((a + b).drop_last() =~= a + b.drop_last());
        assert(bars_of(a + b, own, monitors) =~= bars_of(a, own, monitors) + bars_of(
            b,
            own,
            monitors,
        ));
    }
}

/// The bars are picked from the windows one by one, in order.
pub proof fn law_bars_keep_their_order(
    a: Seq<BarCandidate>,
    b: Seq<BarCandidate>,
    c: BarCandidate,
    own: u32,
    monitors: Seq<Monitor>,
)
    ensures
        bars_of(a + b, own, monitors) == bars_of(a, own, monitors) + bars_of(b, own, monitors),
        bars_of(seq![c], own, monitors) == (if is_bar(c, own, monitors) {
            seq![c.id]
        } else {
            Seq::empty()
        }),
{
    lemma_bars_join(a, b, own, monitors);
    let one = seq![c];
    assert(one.drop_last() =~= Seq::<BarCandidate>::empty());
    assert(bars_of(one.drop_last(), own, monitors) =~= Seq::<WindowId>::empty());
    assert(bars_of(one, own, monitors) =~= (if is_bar(c, own, monitors) {
        seq![c.id]
    } else {
        Seq::empty()
    }));
}

/// A move is made for a tile exactly when its window lives.
pub proof fn law_moves_are_for_living_windows(
    rects: Seq<TileRect>,
    alive: Set<WindowId>,
    r: TileRect,
)
    ensures
        rects.filter(tile_in(alive)).contains(r) <==> rects.contains(r) && alive.contains(r.id),
{
    broadcast use vstd::seq_lib::group_filter_ensures;

    let p = tile_in(alive);
    let kept = rects.filter(p);
    if rects.contains(r) && alive.contains(r.id) {
        assert(p(rects[rects.index_of(r)]));
    }
    if kept.contains(r) {
        assert(p(kept[kept.index_of(r)]));
        rects.lemma_filter_contains_rev(p, r);
    }
}

/// A character outside the basic plane becomes a high and a low
/// surrogate from which it can be had back; any other stands for itself.
pub proof fn law_characters_become_code_units(c: char)
    ensures
        (c as u32) < 0x1_0000 ==> char_units(c).len() == 1 && char_units(c)[0] == c as u32,
        (c as u32) >= 0x1_0000 ==> {
            let u = char_units(c);
            &&& u.len() == 2
            &&& 0xD800 <= u[0] < 0xDC00
            &&& 0xDC00 <= u[1] < 0xE000
            &&& 0x1_0000 + (u[0] - 0xD800) * 0x400 + (u[1] - 0xDC00) == c as u32
        },
{
}

proof fn lemma_utf16_join(a: Seq<char>, b: Seq<char>)
    ensures
        utf16(a + b) == utf16(a) + utf16(b),
    decreases b.len(),
{
    if b.len() == 0 {
        assert(a + b =~= a);
        assert(utf16(a + b) =~= utf16(a) + utf16(b));
    } else {
        lemma_utf16_join(a, b.drop_last());
        assert((a + b).drop_last() =~= a + b.drop_last());
        assert(utf16(a + b) =~= utf16(a) + utf16(b));
    }
}

/// A text becomes code units character by character, in order.
pub proof fn law_texts_become_code_units(a: Seq<char>, b: Seq<char>, c: char)
    ensures
        utf16(a + b) == utf16(a) + utf16(b),
        utf16(seq![c]) == char_units(c),
{
    lemma_utf16_join(a, b);
    let one = seq![c];
    assert(one.drop_last() =~= Seq::<char>::empty());
    assert(utf16(one.drop_last()) =~= Seq::<u16>::empty());
    assert(utf16(one) =~= char_units(c));
}

/// The number that a run of decimal digits stands for.
pub open spec fn value_of(text: Seq<char>) -> int
    decreases text.len(),
{
    if text.len() == 0 {
        0
    } else {
        10 * value_of(text.drop_last()) + (text.last() as u32 - '0' as u32)
    }
}

/// A number written in decimal reads as the number again, in digits
/// only, without a zero in front; a minus sign stands before a negative
/// one.
pub proof fn law_decimals_read_back(n: nat, k: int)
    ensures
        value_of(digits(n)) == n,
        digits(n).len() > 0,
        0 <= k < digits(n).len() ==> '0' as u32 <= digits(n)[k] as u32 <= '9' as u32,
        n > 0 ==> digits(n)[0] != '0',
        decimal(n as int) == digits(n),
        n > 0 ==> decimal(-n) == seq!['-'] + digits(n),
    decreases n,
{
    if n < 10 {
        let d = digits(n);
        assert(d.drop_last() =~= Seq::<char>::empty());
        assert(value_of(d.drop_last()) == 0);
        assert(d.last() == digit(n as int));
        assert(digit(n as int) as u32 == '0' as u32 + n);
    } else {
        law_decimals_read_back(n / 10, k);
        let d = digits(n);
        assert(d.drop_last() =~= digits(n / 10));
        assert(d.last() == digit((n % 10) as int));
        assert(digit((n % 10) as int) as u32 == '0' as u32 + n % 10);
        law_decimals_read_back(n / 10, 0);
    }
}

/// The menu names the version, toggles autostart with the mark that is
/// set, and leaves exactly its header without effect.
pub proof fn law_menu_shows_the_state(tray: Tray)
    ensures
        ({
            let menu = tray.menu();
            &&& menu.len() == 7
            &&& menu[0]->label == "yumi-wini v"@ + tray.version@
            &&& !menu[0]->enabled
            &&& menu[1]->enabled && menu[1]->id == "open-config"@
            &&& menu[2]->enabled && menu[2]->id == "reload-config"@
            &&& menu[3] is Separator
            &&& menu[4]->enabled && menu[4]->id == "toggle-autostart"@
            &&& menu[4]->checked == Some(tray.autostart_checked)
            &&& menu[5] is Separator
            &&& menu[6]->enabled && menu[6]->id == "quit"@
        }),
{
}

} // verus!

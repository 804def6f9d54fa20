//! The state of the window manager, and the bookkeeping that every
//! handler shares.

use crate::effect::Effect;
use crate::floating::FloatState;
use crate::geometry::{Bounds, Monitor, Rect, WindowId};
use crate::layout::Layout;
use crate::search::{first_where, lemma_first_is, lemma_first_none, same_index};
use crate::slide::{SlideOn, SlideView};
use std::collections::{HashMap, HashSet};
use vstd::prelude::*;

verus! {

broadcast use vstd::std_specs::hash::group_hash_axioms;

/// The focus ring's look.
#[derive(Debug, Clone, Copy, PartialEq, Eq, Structural)]
pub struct Ring {
    pub enabled: bool,
    /// 0xRRGGBB.
    pub active_color: u32,
    pub width: i32,
    pub radius: i32,
}

/// The part of the configuration that decisions read.
#[derive(Debug)]
pub struct Settings {
    pub mod_key: String,
    pub focus_follows_mouse: bool,
    /// Workspace switches are animated.
    pub slides_enabled: bool,
    /// The gap between columns, in sub-pixels.
    pub gaps: i64,
    pub ring: Ring,
}

/// Mutable state shared between the message loop and event handlers.
#[derive(Debug)]
pub struct AppState {
    /// All top-level application windows we currently track.
    pub windows: HashSet<WindowId>,
    /// Current monitor topology.
    pub monitors: Vec<Monitor>,
    pub settings: Settings,
    /// Modification time of the config file as last loaded.
    pub config_mtime: Option<i128>,
    /// The window the system currently considers foreground.
    pub focused: Option<WindowId>,
    /// While the user drags or resizes this window, tiling is paused.
    pub interacting_window: Option<WindowId>,
    /// Management suspended: no geometry is applied until the screen
    /// transition ends.
    pub suspended: bool,
    /// Where the window was when the current interaction started.
    pub interact_start: Option<Bounds>,
    /// Windows we stripped decorations from, with what was stripped.
    pub borderless: HashMap<WindowId, u32>,
    /// Floating windows (out of the tiling grid).
    pub floating: HashMap<WindowId, FloatState>,
    /// Windows we hid ourselves. Their hiding is self-inflicted and must
    /// not unmanage them.
    pub hidden_by_us: HashSet<WindowId>,
    /// In-flight workspace-switch slides, at most one per monitor.
    pub slides: Vec<SlideOn>,
    /// Each window's geometry as it was when we started managing it.
    pub original_rects: HashMap<WindowId, Rect>,
    /// Is there a workspace indicator overlay?
    pub has_overlay: bool,
    /// Is there a focus ring window?
    pub has_focus_border: bool,
}

/// The state as a value.
#[verifier::ext_equal]
pub struct StateView {
    pub windows: Set<WindowId>,
    pub monitors: Seq<Monitor>,
    pub settings: Settings,
    pub config_mtime: Option<i128>,
    pub focused: Option<WindowId>,
    pub interacting_window: Option<WindowId>,
    pub suspended: bool,
    pub interact_start: Option<Bounds>,
    pub borderless: Map<WindowId, u32>,
    pub floating: Map<WindowId, FloatState>,
    pub hidden_by_us: Set<WindowId>,
    pub slides: Seq<SlideView>,
    pub original_rects: Map<WindowId, Rect>,
    pub has_overlay: bool,
    pub has_focus_border: bool,
}

/// Slides on the monitor of that name.
pub open spec fn slide_on(device: Seq<char>) -> spec_fn(SlideView) -> bool {
    |s: SlideView| s.device == device
}

impl StateView {
    /// What every handler keeps: an original rectangle is only kept for
    /// a tracked window; a monitor has at most one slide.
    pub open spec fn wf(self) -> bool {
        &&& self.original_rects.dom().subset_of(self.windows)
        &&& forall|i: int, j: int|
            0 <= i < j < self.slides.len() ==> (#[trigger] self.slides[i]).device != (
            #[trigger] self.slides[j]).device
    }

    /// Every float is a tracked window.
    pub open spec fn floats_managed(self) -> bool {
        self.floating.dom().subset_of(self.windows)
    }

    /// Management is paused: the user holds a window, or a screen
    /// transition runs.
    pub open spec fn paused(self) -> bool {
        self.interacting_window is Some || self.suspended
    }

    /// The slide on a monitor.
    pub open spec fn slide_at(self, device: Seq<char>) -> Option<int> {
        first_where(self.slides, slide_on(device))
    }

    /// The float is on a workspace that is on view.
    pub open spec fn float_on_view(self, id: WindowId, layout: Layout) -> bool {
        self.floating.contains_key(id) && layout.active_on(self.floating[id].device@) == Some(
            self.floating[id].workspace_idx,
        )
    }

    /// The window is in sight: tiled or floating, on a workspace that is
    /// on view.
    pub open spec fn in_sight(self, id: WindowId, layout: Layout) -> bool {
        layout.on_view(id) || self.float_on_view(id, layout)
    }

    /// Decorations on the window are as we found them.
    pub open spec fn with_borders(self, id: WindowId) -> StateView {
        StateView { borderless: self.borderless.remove(id), ..self }
    }

    /// The window is no longer managed.
    pub open spec fn without(self, id: WindowId) -> StateView {
        StateView {
            windows: self.windows.remove(id),
            borderless: self.borderless.remove(id),
            floating: self.floating.remove(id),
            original_rects: self.original_rects.remove(id),
            ..self
        }
    }

    /// Put back the decorations we took from the window, if we did.
    pub open spec fn border_effects(self, id: WindowId) -> Seq<Effect> {
        if self.borderless.contains_key(id) {
            seq![Effect::RestoreBorders { id, removed: self.borderless[id] }]
        } else {
            Seq::empty()
        }
    }
}

impl View for AppState {
    type V = StateView;

    open spec fn view(&self) -> StateView {
        StateView {
            windows: self.windows@,
            monitors: self.monitors@,
            settings: self.settings,
            config_mtime: self.config_mtime,
            focused: self.focused,
            interacting_window: self.interacting_window,
            suspended: self.suspended,
            interact_start: self.interact_start,
            borderless: self.borderless@,
            floating: self.floating@,
            hidden_by_us: self.hidden_by_us@,
            slides: self.slides@.map_values(|s: SlideOn| s@),
            original_rects: self.original_rects@,
            has_overlay: self.has_overlay,
            has_focus_border: self.has_focus_border,
        }
    }
}

/// The keys of a map, each once, in no particular order.
pub open spec fn lists(order: Seq<WindowId>, ids: Set<WindowId>) -> bool {
    order.no_duplicates() && order.to_set() == ids
}

fn keys_of<V>(map: &HashMap<WindowId, V>) -> (keys: Vec<WindowId>)
    ensures
        lists(keys@, map@.dom()),
{
    let mut keys: Vec<WindowId> = Vec::new();
    let ghost all = vstd::std_specs::iter::IteratorSpec::remaining(&map.keys());
    for k in it: map.keys()
        invariant
            it.seq() == all,
            keys@ =~= all.unref().take(it.index()),
    {
        keys.push(*k);
    }
    proof {
        assert(keys@ =~= all.unref());
    }
    keys
}

impl AppState {
    pub open spec fn wf(self) -> bool {
        self@.wf()
    }

    /// A fresh state: nothing tracked yet.
    pub fn new(
        monitors: Vec<Monitor>,
        settings: Settings,
        config_mtime: Option<i128>,
        has_overlay: bool,
        has_focus_border: bool,
    ) -> (state: AppState)
        ensures
            state.wf(),
            state@ == (StateView {
                windows: Set::empty(),
                monitors: monitors@,
                settings,
                config_mtime,
                focused: None,
                interacting_window: None,
                suspended: false,
                interact_start: None,
                borderless: Map::empty(),
                floating: Map::empty(),
                hidden_by_us: Set::empty(),
                slides: Seq::empty(),
                original_rects: Map::empty(),
                has_overlay,
                has_focus_border,
            }),
    {
        AppState {
            windows: HashSet::new(),
            monitors,
            settings,
            config_mtime,
            focused: None,
            interacting_window: None,
            suspended: false,
            interact_start: None,
            borderless: HashMap::new(),
            floating: HashMap::new(),
            hidden_by_us: HashSet::new(),
            slides: Vec::new(),
            original_rects: HashMap::new(),
            has_overlay,
            has_focus_border,
        }
    }

    /// Is the window tracked?
    pub fn tracks(&self, id: WindowId) -> (b: bool)
        ensures
            b == self@.windows.contains(id),
    {
        self.windows.contains(&id)
    }

    /// Is management paused?
    pub fn is_paused(&self) -> (b: bool)
        ensures
            b == self@.paused(),
    {
        self.interacting_window.is_some() || self.suspended
    }

    /// The floating windows, in no particular order.
    pub fn float_ids(&self) -> (ids: Vec<WindowId>)
        ensures
            lists(ids@, self@.floating.dom()),
    {
        keys_of(&self.floating)
    }

    /// The windows whose original place is known, in no particular
    /// order.
    pub fn managed_ids(&self) -> (ids: Vec<WindowId>)
        ensures
            lists(ids@, self@.original_rects.dom()),
    {
        keys_of(&self.original_rects)
    }

    /// Is the float on a workspace that is on view?
    pub fn is_float_on_view(&self, id: WindowId, layout: &Layout) -> (b: bool)
        ensures
            b == self@.float_on_view(id, *layout),
    {
        match self.floating.get(&id) {
            Some(fs) => match layout.active_idx(&fs.device) {
                Some(active) => active == fs.workspace_idx,
                None => false,
            },
            None => false,
        }
    }

    /// Is the window in sight?
    pub fn is_in_sight(&self, id: WindowId, layout: &Layout) -> (b: bool)
        ensures
            b == self@.in_sight(id, *layout),
    {
        layout.is_on_view(id) || self.is_float_on_view(id, layout)
    }

    /// Where the slide of a monitor is kept.
    pub fn find_slide(&self, device: &String) -> (found: Option<usize>)
        ensures
            same_index(found, self@.slide_at(device@)),
            found matches Some(i) ==> i < self.slides@.len() && self@.slides[i as int].device
                == device@,
    {
        let mut i: usize = 0;
        while i < self.slides.len()
            invariant
                i <= self.slides@.len(),
                forall|k: int| 0 <= k < i ==> !slide_on(device@)(#[trigger] self@.slides[k]),
            decreases self.slides@.len() - i,
        {
            assert(self@.slides[i as int] == self.slides@[i as int]@);
            if self.slides[i].device == *device {
                proof {
                    lemma_first_is(self@.slides, slide_on(device@), i as int);
                }
                return Some(i);
            }
            i = i + 1;
        }
        proof {
            lemma_first_none(self@.slides, slide_on(device@));
        }
        None
    }

    /// Restore decorations on a window we made borderless. Safe to call
    /// for any window.
    pub fn restore_borders(&mut self, id: WindowId) -> (effects: Vec<Effect>)
        ensures
            final(self)@ == old(self)@.with_borders(id),
            effects@ == old(self)@.border_effects(id),
            old(self).wf() ==> final(self).wf(),
    {
        let mut effects: Vec<Effect> = Vec::new();
        if let Some(removed) = self.borderless.remove(&id) {
            effects.push(Effect::RestoreBorders { id, removed });
        }
        effects
    }
}

} // verus!

//! The configuration and the tray menu while the program runs.

use crate::effect::Effect;
use crate::state::{AppState, Settings, StateView};
use crate::tray::TrayAction;
use vstd::prelude::*;

verus! {

/// What an entry of the tray menu asks for.
pub open spec fn tray_effect(action: TrayAction) -> Effect {
    match action {
        TrayAction::OpenConfig => Effect::OpenConfig,
        TrayAction::ReloadConfig => Effect::ReloadConfig,
        TrayAction::ToggleAutostart => Effect::ToggleAutostart,
        TrayAction::Quit => Effect::Quit,
    }
}

/// Perform the requested actions, in order.
pub fn handle_tray_events(actions: &Vec<TrayAction>) -> (effects: Vec<Effect>)
    ensures
        effects@ == actions@.map_values(|a: TrayAction| tray_effect(a)),
{
    let mut effects: Vec<Effect> = Vec::new();
    let mut i: usize = 0;
    while i < actions.len()
        invariant
            i <= actions@.len(),
            effects@ =~= actions@.take(i as int).map_values(|a: TrayAction| tray_effect(a)),
        decreases actions@.len() - i,
    {
        effects.push(
            match actions[i] {
                TrayAction::OpenConfig => Effect::OpenConfig,
                TrayAction::ReloadConfig => Effect::ReloadConfig,
                TrayAction::ToggleAutostart => Effect::ToggleAutostart,
                TrayAction::Quit => Effect::Quit,
            },
        );
        i = i + 1;
    }
    assert(actions@.take(i as int) =~= actions@);
    effects
}

impl StateView {
    /// The file's modification time was read, if it could be.
    pub open spec fn polled(self, mtime: Option<i128>) -> StateView {
        match mtime {
            Some(_) => StateView { config_mtime: mtime, ..self },
            None => self,
        }
    }

    /// The file has to be loaded: it can be read and is not the one
    /// that was loaded last.
    pub open spec fn outdated(self, mtime: Option<i128>) -> bool {
        mtime is Some && mtime != self.config_mtime
    }

    /// What applying a configuration asks for.
    pub open spec fn config_effects(self, settings: Settings) -> Seq<Effect> {
        seq![Effect::SetAnimationParams, Effect::SetLayoutParams] + (if settings.mod_key@
            != self.settings.mod_key@ {
            seq![Effect::SetModKey]
        } else {
            Seq::empty()
        }) + seq![Effect::UpdateBinds, Effect::Reflow]
    }
}

impl AppState {
    /// Poll the config file for changes. True if it has to be loaded; a
    /// file that fails to load is not tried again until it changes.
    pub fn maybe_reload_config(&mut self, mtime: Option<i128>) -> (load: bool)
        ensures
            load == old(self)@.outdated(mtime),
            final(self)@ == old(self)@.polled(mtime),
            old(self).wf() ==> final(self).wf(),
    {
        if mtime.is_none() || mtime == self.config_mtime {
            return false;
        }
        self.config_mtime = mtime;
        true
    }

    /// Reload even if the file is the one that was loaded last.
    pub fn force_reload(&mut self, mtime: Option<i128>) -> (load: bool)
        ensures
            load == (mtime is Some),
            final(self)@ == (StateView { config_mtime: mtime, ..old(self)@ }),
            old(self).wf() ==> final(self).wf(),
    {
        self.config_mtime = None;
        self.maybe_reload_config(mtime)
    }

    /// Apply a (possibly new) configuration live: animation tuning,
    /// layout parameters, the Mod key and the binds.
    pub fn apply_config(&mut self, settings: Settings) -> (effects: Vec<Effect>)
        ensures
            effects@ == old(self)@.config_effects(settings),
            final(self)@ == (StateView { settings, ..old(self)@ }),
            old(self).wf() ==> final(self).wf(),
    {
        let mut effects: Vec<Effect> = Vec::new();
        effects.push(Effect::SetAnimationParams);
        effects.push(Effect::SetLayoutParams);
        if settings.mod_key != self.settings.mod_key {
            effects.push(Effect::SetModKey);
        }
        self.settings = settings;
        effects.push(Effect::UpdateBinds);
        effects.push(Effect::Reflow);
        effects
    }
}

} // verus!

//! Session-level state: the session id, available modes, configuration
//! options, and the cached current model.

use vstd::prelude::*;

use crate::text::str_eq;

verus! {

/// An available agent mode.
#[derive(Debug, Clone)]
pub struct AvailableMode {
    pub id: String,
    pub name: String,
}

/// One session configuration option: its id and, for select-style options,
/// the currently selected value.
#[derive(Debug, Clone)]
pub struct ConfigOption {
    pub id: String,
    /// The current value for select-style options; `None` for other kinds.
    pub current_value: Option<String>,
}

/// The session's mode state as a session response reports it.
#[derive(Debug, Clone)]
pub struct ModeState {
    pub current_mode_id: String,
    pub available_modes: Vec<AvailableMode>,
}

/// The current model drawn from the config options: the first option whose
/// id is `model` and which carries a select value.
pub open spec fn spec_model_from(options: Seq<ConfigOption>, i: int) -> Option<Seq<char>>
    decreases options.len() - i,
{
    if i < 0 || i >= options.len() {
        None
    } else if options[i].id@ == "model"@ && options[i].current_value is Some {
        Some(options[i].current_value->0@)
    } else {
        spec_model_from(options, i + 1)
    }
}

/// Owns all session-level state; the single source of truth for session
/// data.
#[derive(Debug)]
pub struct SessionContext {
    pub id: Option<String>,
    pub available_modes: Vec<AvailableMode>,
    pub config_options: Vec<ConfigOption>,
    pub cwd: String,
    pub current_mode_id: Option<String>,
    pub cached_model: Option<String>,
}

impl SessionContext {
    /// A fresh session over a working directory: no id, no modes, no config,
    /// no model.
    pub fn new(cwd: String) -> (r: SessionContext)
        ensures
            r.id is None,
            r.available_modes@.len() == 0,
            r.config_options@.len() == 0,
            r.cwd@ == cwd@,
            r.current_mode_id is None,
            r.cached_model is None,
    {
        SessionContext {
            id: None,
            available_modes: Vec::new(),
            config_options: Vec::new(),
            cwd,
            current_mode_id: None,
            cached_model: None,
        }
    }

    pub fn set_session_id(&mut self, session_id: String)
        ensures
            final(self).id == Some(session_id),
            final(self).available_modes == old(self).available_modes,
            final(self).config_options == old(self).config_options,
            final(self).cwd == old(self).cwd,
            final(self).current_mode_id == old(self).current_mode_id,
            final(self).cached_model == old(self).cached_model,
    {
        self.id = Some(session_id);
    }

    /// Store mode info from a session response.
    pub fn set_modes(&mut self, modes: &ModeState)
        ensures
            final(self).current_mode_id is Some,
            final(self).current_mode_id->0@ == modes.current_mode_id@,
            final(self).available_modes@.len() == modes.available_modes@.len(),
            forall|i: int|
                0 <= i < modes.available_modes@.len() ==> (#[trigger] final(self).available_modes@[i]).id@ == modes.available_modes@[i].id@ && final(self).available_modes@[i].name@ == modes.available_modes@[i].name@,
            final(self).id == old(self).id,
            final(self).config_options == old(self).config_options,
            final(self).cwd == old(self).cwd,
            final(self).cached_model == old(self).cached_model,
    {
        self.current_mode_id = Some(modes.current_mode_id.clone());
        let mut copied: Vec<AvailableMode> = Vec::new();
        let mut i: usize = 0;
        while i < modes.available_modes.len()
            invariant
                i <= modes.available_modes@.len(),
                copied@.len() == i,
                forall|j: int|
                    0 <= j < i ==> (#[trigger] copied@[j]).id@ == modes.available_modes@[j].id@
                        && copied@[j].name@ == modes.available_modes@[j].name@,
            decreases modes.available_modes@.len() - i,
        {
            let m = &modes.available_modes[i];
            copied.push(AvailableMode { id: m.id.clone(), name: m.name.clone() });
            i += 1;
        }
        self.available_modes = copied;
    }

    fn compute_current_model(&self) -> (r: Option<String>)
        ensures
            (match r {
                Some(v) => spec_model_from(self.config_options@, 0) == Some(v@),
                None => spec_model_from(self.config_options@, 0) is None,
            }),
    {
        let mut i: usize = 0;
        while i < self.config_options.len()
            invariant
                i <= self.config_options@.len(),
                spec_model_from(self.config_options@, 0) == spec_model_from(
                    self.config_options@,
                    i as int,
                ),
            decreases self.config_options@.len() - i,
        {
            let opt = &self.config_options[i];
            if str_eq(opt.id.as_str(), "model") {
                match &opt.current_value {
                    Some(v) => {
                        return Some(v.clone());
                    },
                    None => {},
                }
            }
            i += 1;
        }
        None
    }

    /// Store config options from a session response or update notification,
    /// caching the model they carry.
    pub fn set_config_options(&mut self, options: Vec<ConfigOption>)
        ensures
            final(self).config_options == options,
            (match final (self).cached_model {
                Some(v) => spec_model_from(options@, 0) == Some(v@),
                None => spec_model_from(options@, 0) is None,
            }),
            final(self).id == old(self).id,
            final(self).available_modes == old(self).available_modes,
            final(self).cwd == old(self).cwd,
            final(self).current_mode_id == old(self).current_mode_id,
    {
        self.config_options = options;
        self.cached_model = self.compute_current_model();
    }

    /// Optimistically update the cached model for immediate display; a later
    /// config update confirms or overwrites it.
    pub fn set_optimistic_model(&mut self, model: String)
        ensures
            final(self).cached_model == Some(model),
            final(self).id == old(self).id,
            final(self).available_modes == old(self).available_modes,
            final(self).config_options == old(self).config_options,
            final(self).cwd == old(self).cwd,
            final(self).current_mode_id == old(self).current_mode_id,
    {
        self.cached_model = Some(model);
    }

    /// The cached model value.
    pub fn current_model<'a>(&'a self) -> (r: Option<&'a str>)
        ensures
            (match r {
                Some(s) => self.cached_model is Some && s@ == self.cached_model->0@,
                None => self.cached_model is None,
            }),
    {
        match &self.cached_model {
            Some(s) => Some(s.as_str()),
            None => None,
        }
    }
}

} // verus!

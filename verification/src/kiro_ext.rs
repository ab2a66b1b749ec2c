//! Types for the vendor extension notifications that announce agent
//! commands, and the rule deciding which of those commands are executable.

use vstd::prelude::*;

use crate::text::str_eq;

verus! {

/// Metadata for an extension-announced command.
#[derive(Debug, Clone)]
pub struct KiroCommandMeta {
    /// "selection" requires a dropdown, "panel" needs special rendering.
    pub input_type: Option<String>,
    /// Extension method to call for options.
    pub options_method: Option<String>,
    /// If true, the command is purely local (e.g. /quit).
    pub local: bool,
}

/// A command received from the commands-available extension notification.
#[derive(Debug, Clone)]
pub struct KiroExtCommand {
    pub name: String,
    pub description: String,
    pub input_hint: Option<String>,
    pub meta: Option<KiroCommandMeta>,
}

/// A command is executable unless its metadata marks it local-only or as a
/// selection command; commands without metadata, and panel commands, are
/// executable.
pub open spec fn spec_is_executable(meta: Option<KiroCommandMeta>) -> bool {
    match meta {
        Option::None => true,
        Option::Some(m) => !m.local && !(m.input_type is Some && m.input_type->0@
            == "selection"@),
    }
}

impl KiroExtCommand {
    /// Whether this command can be executed through the extension's execute
    /// method.
    pub fn is_executable(&self) -> (r: bool)
        ensures
            r == spec_is_executable(self.meta),
    {
        match &self.meta {
            None => true,
            Some(m) => {
                if m.local {
                    false
                } else {
                    match &m.input_type {
                        Some(t) => !str_eq(t.as_str(), "selection"),
                        None => true,
                    }
                }
            },
        }
    }
}

/// The payload shapes under which the extension announces its commands: a
/// `commands` wrapper, the protocol-style `availableCommands` wrapper, or a
/// bare array.
#[derive(Debug)]
pub enum KiroCommandsPayload {
    Wrapped { commands: Vec<KiroExtCommand> },
    AcpStyle { commands: Vec<KiroExtCommand> },
    Bare(Vec<KiroExtCommand>),
}

impl KiroCommandsPayload {
    /// The announced commands, whatever shape carried them.
    pub fn commands(self) -> (r: Vec<KiroExtCommand>)
        ensures
            (match self {
                KiroCommandsPayload::Wrapped { commands } => r == commands,
                KiroCommandsPayload::AcpStyle { commands } => r == commands,
                KiroCommandsPayload::Bare(commands) => r == commands,
            }),
    {
        match self {
            KiroCommandsPayload::Wrapped { commands } => commands,
            KiroCommandsPayload::AcpStyle { commands } => commands,
            KiroCommandsPayload::Bare(commands) => commands,
        }
    }
}

} // verus!

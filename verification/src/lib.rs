//! Mediation core for an interactive front end driving a remote coding agent:
//! path-namespace translation between the host and the agent, declarative
//! before/after policy hooks, terminal bookkeeping with bounded output
//! buffers, and the pure decision logic of the capability callbacks.

pub mod cache;
pub mod commands;
pub mod completer;
pub mod hooks;
pub mod kiro_ext;
pub mod path;
pub mod payload;
pub mod picker;
pub mod session;
pub mod terminal;
pub mod text;
pub mod tool_calls;

//! Orchestration core for a primary agent and its subagents: role
//! specifications, the registry that merges them, prompt assembly, and the
//! decision logic of a session run.

pub mod agent;
pub mod cli;
pub mod session;
pub mod tool;
pub mod util;
pub mod watcher;

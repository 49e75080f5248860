//! The resources that a server runs: terminals and agent sessions.

pub mod agent_session;
pub mod base;
pub mod event_laws;
pub mod event_sink;
pub mod terminal;

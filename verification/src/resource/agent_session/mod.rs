//! An agent session: a stream of records that its producer feeds.

pub mod actor;
pub mod record;
pub mod ring;
pub mod session_laws;
